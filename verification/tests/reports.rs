use boro::commit::{
    commit_effective_findings, commit_subject, commit_title, commits_slice, short_sha,
    test_plan_array, test_plan_string,
};
use boro::findings::{print_finding, print_findings_block};
use boro::plan::{
    print_plan_list, print_plan_only, print_plan_script, print_test_plan_details,
    print_test_summary, print_wrapped_label,
};
use boro::report::{
    can_print_report, eprint_run_header, print_lkml_block, print_quick_summary_block,
    print_report_human,
};
use boro::stats::{can_print_apply_stats, eprint_apply_stats, print_stats_block};
use boro::usage::{print_step_table, print_usage_card};
use serde_json::Value;

fn value(text: &str) -> Value {
    serde_json::from_str(text).expect("valid JSON")
}

fn tok(n: u64) -> String {
    format!("<{n}>")
}

fn rule() -> String {
    "-".repeat(72)
}

fn dots() -> String {
    "·".repeat(72)
}

#[test]
fn run_header_names_the_models() {
    assert_eq!(
        eprint_run_header("a..b", "m", Some("v"), false).lines,
        vec!["  Range: a..b", "  Model: m", "  Fast/validation: v", ""]
    );
    assert_eq!(
        eprint_run_header("a..b", "", None, false).lines,
        vec!["  Range: a..b", "  Model: (backend default)", ""]
    );
    assert_eq!(
        eprint_run_header("a..b", "m", Some(""), false).lines,
        vec!["  Range: a..b", "  Model: m", "  Fast/validation: (backend default)", ""]
    );
    assert_eq!(
        eprint_run_header("a", "m", None, true).lines,
        vec![
            "  \x1b[2m\x1b[1mRange:\x1b[0m\x1b[0m \x1b[97ma\x1b[39m",
            "  \x1b[2m\x1b[1mModel:\x1b[0m\x1b[0m \x1b[97mm\x1b[39m",
            "",
        ]
    );
}

#[test]
fn run_header_leaves_out_a_validation_model_that_is_the_main_model() {
    assert_eq!(
        eprint_run_header("a..b", "m", Some("m"), false).lines,
        vec!["  Range: a..b", "  Model: m", ""]
    );
}

#[test]
fn usage_cards_leave_out_an_unused_cache() {
    let u = value(r#"{"prompt_tokens": 1000, "completion_tokens": 5, "api_calls": 3}"#);
    assert_eq!(
        print_usage_card(&u, "    ", false, tok),
        "    prompt: <1000>  tokens: <5>  api_calls: 3"
    );
    assert_eq!(
        print_usage_card(&value("{}"), "", false, tok),
        "prompt: —  tokens: —  api_calls: 0"
    );
}

#[test]
fn usage_cards_show_shares_of_the_prompt() {
    let u = value(
        r#"{"prompt_tokens": 1000, "completion_tokens": 5, "api_calls": 3,
            "cache_read_tokens": 333, "cache_creation_tokens": 0}"#,
    );
    assert_eq!(
        print_usage_card(&u, "  ", false, tok),
        "  prompt: <1000>  cache_r: <333> (33 % of prompt)  cache_w: <0> (0 % of prompt)  \
         tokens: <5>  api_calls: 3"
    );
    let u = value(r#"{"cache_creation_tokens": 7}"#);
    assert_eq!(
        print_usage_card(&u, "", false, tok),
        "prompt: —  cache_r: <0>  cache_w: <7>  tokens: —  api_calls: 0"
    );
}

#[test]
fn usage_cards_are_coloured() {
    let u = value(r#"{"prompt_tokens": 1}"#);
    assert_eq!(
        print_usage_card(&u, "", true, tok),
        "\x1b[2m\x1b[1mprompt:\x1b[0m\x1b[0m \x1b[92m<1>\x1b[39m  \
         \x1b[2m\x1b[1mtokens:\x1b[0m\x1b[0m \x1b[92m—\x1b[39m  \
         \x1b[2m\x1b[1mapi_calls:\x1b[0m\x1b[0m \x1b[97m0\x1b[39m"
    );
}

fn steps(text: &str) -> Vec<Value> {
    value(text).as_array().expect("an array").clone()
}

#[test]
fn step_tables_are_aligned() {
    let s = steps(
        r#"[
            {"step": "review", "prompt_tokens": 12345, "completion_tokens": 7, "wall_ms": 1500},
            {"step": "a step with a very long name", "completion_tokens": -1},
            {}
        ]"#,
    );
    let t = print_step_table(&s, "  ", false, tok).lines;
    assert_eq!(
        t,
        vec![
            "  step                       prompt  tokens  time",
            "  review                    <12345>     <7>  1.5s",
            "  a step with a very lo...        —       —     —",
            "  ?                               —       —     —",
        ]
    );
    for line in &t {
        assert_eq!(line.chars().count(), t[0].chars().count());
    }
}

#[test]
fn step_tables_have_cache_columns_where_the_cache_was_used() {
    let s = steps(
        r#"[
            {"step": "a", "prompt_tokens": 1, "completion_tokens": 2, "cache_read_tokens": 3},
            {"step": "b", "cache_creation_tokens": 0}
        ]"#,
    );
    assert_eq!(
        print_step_table(&s, "", false, tok).lines,
        vec![
            "step      prompt  cache_r  cache_w  tokens  time",
            "a            <1>      <3>              <2>     —",
            "b              —               <0>       —     —",
        ]
    );
}

#[test]
fn step_tables_show_errors_below_their_row() {
    let long = "word ".repeat(30);
    let s = steps(&format!(r#"[{{"step": "a", "error": "  {long} "}}, {{"step": "b", "error": " "}}]"#));
    let t = print_step_table(&s, "    ", false, tok).lines;
    assert_eq!(t.len(), 5);
    assert_eq!(t[1], "    a              —       —     —");
    assert_eq!(t[2], format!("      error: {}", ["word"; 17].join(" ")));
    assert_eq!(t[3], format!("             {}", ["word"; 13].join(" ")));
    assert_eq!(t[4], "    b              —       —     —");
}

#[test]
fn step_tables_are_coloured_by_column() {
    let s = steps(r#"[{"step": "a", "error": "e"}]"#);
    let gap = "\x1b[2m  \x1b[0m";
    assert_eq!(
        print_step_table(&s, "", true, tok).lines,
        vec![
            format!(
                "\x1b[2mstep    \x1b[0m{gap}\x1b[2mprompt\x1b[0m{gap}\x1b[2mtokens\x1b[0m{gap}\x1b[2mtime\x1b[0m"
            ),
            format!(
                "\x1b[2ma       \x1b[0m{gap}\x1b[92m     —\x1b[39m{gap}\x1b[92m     —\x1b[39m{gap}\x1b[96m   —\x1b[39m"
            ),
            "  \x1b[31m\x1b[1merror: \x1b[0m\x1b[39m\x1b[31me\x1b[39m".to_string(),
        ]
    );
}

#[test]
fn hashes_are_cut_to_twelve_bytes() {
    assert_eq!(short_sha(&value(r#"{"sha": "0123456789abcdef"}"#)), "0123456789ab");
    assert_eq!(short_sha(&value(r#"{"sha": "0123456789ab"}"#)), "0123456789ab");
    assert_eq!(short_sha(&value(r#"{"sha": 7}"#)), "?");
    assert_eq!(short_sha(&value("[]")), "?");
    assert_eq!(short_sha(&value(r#"{"sha": "ääääääää"}"#)), "ääääää");
    assert!(can_print_report(&value(r#"{"commits": [{"sha": "ääääääää"}]}"#)));
    assert!(!can_print_report(&value(r#"{"commits": [{"sha": "aääääääää"}]}"#)));
}

#[test]
fn commits_have_titles() {
    let c = value(r#"{"sha": "0123456789abcdef", "subject": "  fix it  "}"#);
    assert_eq!(commit_subject(&c), Some("fix it".to_string()));
    assert_eq!(commit_title(&c), "0123456789ab  fix it");
    let c = value(r#"{"sha": "abc", "subject": "   "}"#);
    assert_eq!(commit_subject(&c), None);
    assert_eq!(commit_title(&c), "abc");
}

#[test]
fn commits_are_an_array_or_none() {
    assert_eq!(commits_slice(&value(r#"{"commits": [1, 2]}"#)).len(), 2);
    assert_eq!(commits_slice(&value(r#"{"commits": {}}"#)).len(), 0);
    assert_eq!(commits_slice(&value("{}")).len(), 0);
}

#[test]
fn validated_findings_are_preferred_where_they_are_asked_for() {
    let c = value(r#"{"findings": [1, 2], "validated_findings": [3]}"#);
    assert_eq!(commit_effective_findings(&c, true).map(|a| a.len()), Some(1));
    assert_eq!(commit_effective_findings(&c, false).map(|a| a.len()), Some(2));
    let c = value(r#"{"findings": [1, 2]}"#);
    assert_eq!(commit_effective_findings(&c, true).map(|a| a.len()), Some(2));
    assert!(commit_effective_findings(&value("{}"), true).is_none());
}

#[test]
fn plan_texts_fall_back_to_the_commit() {
    let c = value(r#"{"test_plan": {"script": " a ", "steps": [" x ", 1, "", "y"]}, "test_script": "b", "test_rationale": "r"}"#);
    assert_eq!(test_plan_string(&c, "script", "test_script"), Some("a".to_string()));
    assert_eq!(test_plan_string(&c, "rationale", "test_rationale"), Some("r".to_string()));
    assert_eq!(test_plan_string(&c, "description", "test_description"), None);
    assert_eq!(test_plan_array(&c, "steps"), vec!["x", "y"]);
    assert_eq!(test_plan_array(&c, "requirements"), Vec::<String>::new());
    let c = value(r#"{"test_plan": {"script": "  "}, "test_script": "b"}"#);
    assert_eq!(test_plan_string(&c, "script", "test_script"), None);
}

#[test]
fn labelled_texts_are_wrapped() {
    let text = "abcde ".repeat(20);
    assert_eq!(
        print_wrapped_label("plan", &text, false).lines,
        vec![
            format!("    plan: {}", ["abcde"; 11].join(" ")),
            format!("    {}", ["abcde"; 9].join(" ")),
        ]
    );
    assert!(print_wrapped_label("plan", " ", false).lines.is_empty());
}

#[test]
fn lists_are_marked() {
    let items = vec!["one".to_string(), "abcde ".repeat(14)];
    assert_eq!(
        print_plan_list("steps", &items, true, false).lines,
        vec![
            "    steps:".to_string(),
            "      1. one".to_string(),
            format!("      2. {}", ["abcde"; 12].join(" ")),
            format!("         {}", ["abcde"; 2].join(" ")),
        ]
    );
    assert_eq!(
        print_plan_list("requirements", &items[..1].to_vec(), false, true).lines,
        vec!["    \x1b[2mrequirements:\x1b[0m", "      - one"]
    );
    assert!(print_plan_list("steps", &Vec::new(), true, false).lines.is_empty());
}

#[test]
fn scripts_keep_their_lines() {
    assert_eq!(
        print_plan_script("#!/bin/sh\n\n  echo hi\n", false).lines,
        vec!["    script:", "      #!/bin/sh", "      ", "        echo hi"]
    );
    assert!(print_plan_script(" \n ", false).lines.is_empty());
}

#[test]
fn test_plans_are_shown_in_order() {
    let c = value(
        r#"{"test_plan": {"description": "d", "script": "s", "requirements": ["r"],
            "steps": ["t"], "expected_results": ["e"], "rationale": "w"}}"#,
    );
    assert_eq!(
        print_test_plan_details(&c, false).lines,
        vec![
            "    plan: d",
            "    script:",
            "      s",
            "    requirements:",
            "      - r",
            "    steps:",
            "      1. t",
            "    expected:",
            "      - e",
            "    why: w",
        ]
    );
    let c = value(r#"{"test_description": " same ", "test_rationale": "same"}"#);
    assert_eq!(print_test_plan_details(&c, false).lines, vec!["    plan: same"]);
}

#[test]
fn test_summaries_are_shown_where_there_is_a_test() {
    let c = value(r#"{"test_command": "make", "test_summary": " all good "}"#);
    assert_eq!(print_test_summary(&c, false).lines, vec!["    test: make", "    all good"]);
    let c = value(r#"{"test_command": "make", "boot_status": "skipped"}"#);
    assert!(print_test_summary(&c, false).lines.is_empty());
    assert!(print_test_summary(&value("{}"), false).lines.is_empty());
    assert!(print_test_summary(&value(r#"{"plan": true}"#), false).lines.is_empty());
    let c = value(r#"{"plan": true, "test_plan": {"description": "d"}}"#);
    assert!(print_test_summary(&c, false).lines.is_empty());
    let c = value(r#"{"plan": true, "test_command": "make", "test_description": "d"}"#);
    assert_eq!(
        print_test_summary(&c, false).lines,
        vec!["    test: make", "    plan: d", "    (plan only; test not run)"]
    );
    let c = value(r#"{"plan": true, "test_summary": "not shown"}"#);
    assert_eq!(print_test_summary(&c, false).lines, vec!["    (plan only; test not run)"]);
}

#[test]
fn bare_plans_say_that_the_test_was_not_run() {
    let c = value(r#"{"plan": true, "test_plan": {"description": "d"}}"#);
    assert_eq!(
        print_plan_only(&c, false).lines,
        vec!["    plan: d", "    (plan only; test not run)"]
    );
    assert_eq!(
        print_plan_only(&value("{}"), true).lines,
        vec!["    \x1b[2m(plan only; test not run)\x1b[0m"]
    );
}

#[test]
fn findings_are_numbered_and_tagged() {
    let f = value(
        r#"{"problem": "first line\n\nsecond", "severity": "High", "voters": ["a", 1, "b"],
            "severity_explanation": "because  of   this\n   \nand that"}"#,
    );
    assert_eq!(
        print_finding(3, &f, false).lines,
        vec![
            "",
            "    3.  [High] first line",
            "         second",
            "         (voters: a, b)",
            "         because of this",
            "         and that",
        ]
    );
    assert_eq!(
        print_finding(1, &value("{}"), false).lines,
        vec!["", "    1.  [?] (no problem text)"]
    );
    assert_eq!(
        print_finding(1, &value(r#"{"problem": "  "}"#), false).lines,
        vec!["", "    1.  [?]   "]
    );
}

#[test]
fn findings_keep_within_a_hundred_characters() {
    let long = "lorem ipsum dolor sit amet ".repeat(20);
    let f = value(&format!(
        r#"{{"problem": "{long}", "severity": "Critical", "severity_explanation": "{long}"}}"#
    ));
    let lines = print_finding(12, &f, false).lines;
    assert!(lines.len() > 10);
    for line in lines {
        assert!(line.chars().count() <= 100);
    }
}

#[test]
fn severities_have_colours() {
    let tag = |sev: &str| {
        let f = value(&format!(r#"{{"problem": "p", "severity": "{sev}"}}"#));
        print_finding(1, &f, true).lines[1].clone()
    };
    let line = |t: &str| {
        format!("    \x1b[2m\x1b[1m1.\x1b[0m\x1b[0m  {t} \x1b[97mp\x1b[39m")
    };
    assert_eq!(tag("Critical"), line("\x1b[91m\x1b[1m[Critical]\x1b[0m\x1b[39m"));
    assert_eq!(tag("High"), line("\x1b[31m\x1b[1m[High]\x1b[0m\x1b[39m"));
    assert_eq!(tag("Medium"), line("\x1b[33m[Medium]\x1b[39m"));
    assert_eq!(tag("Low"), line("\x1b[32m[Low]\x1b[39m"));
    assert_eq!(tag("Odd"), line("\x1b[2m[Odd]\x1b[0m"));
}

#[test]
fn findings_sections_show_each_commit() {
    let out = value(
        r#"{"commits": [
            {"sha": "aaa", "dry_run": true},
            {"sha": "bbb", "subject": "s", "error": "it\nbroke"},
            {"sha": "ccc", "subject": "t", "findings": [{"problem": "p", "severity": "Low"}]},
            {"sha": "ddd", "findings": []},
            {"sha": "eee"}
        ]}"#,
    );
    assert_eq!(
        print_findings_block(&commits_slice(&out), false, false).lines,
        vec![
            "".to_string(),
            " Findings ".to_string(),
            rule(),
            "  bbb  (review failed)  s".to_string(),
            "    it".to_string(),
            "    broke".to_string(),
            "".to_string(),
            "  ccc  (1 finding)  t".to_string(),
            "".to_string(),
            "    1.  [Low] p".to_string(),
            "".to_string(),
            "  ddd  (0 findings)".to_string(),
            "    (none)".to_string(),
            "".to_string(),
            "  eee  (0 findings)".to_string(),
            "    (missing findings array)".to_string(),
            "".to_string(),
            dots(),
            "".to_string(),
        ]
    );
}

#[test]
fn findings_sections_are_titled_by_what_they_hold() {
    let plan = value(r#"{"commits": [{"plan": true, "findings": []}, {"dry_run": true}]}"#);
    let lines = print_findings_block(&commits_slice(&plan), true, false).lines;
    assert_eq!(lines[1], " Test Plan ");
    assert_eq!(lines[3..6], ["  ?  (plan only)", "    (plan only; test not run)", ""]);
    let skipped = value(
        r#"{"commits": [{"plan": true, "boot_status": "skipped", "findings": []}]}"#,
    );
    let lines = print_findings_block(&commits_slice(&skipped), true, false).lines;
    assert_eq!(lines[3..5], ["  ?  (plan only)", ""]);
    let some = value(r#"{"commits": [{"plan": false}]}"#);
    assert_eq!(
        print_findings_block(&commits_slice(&some), true, false).lines[1],
        " Findings (validated) "
    );
    let none = value(r#"{"commits": [{"dry_run": true}]}"#);
    assert!(print_findings_block(&commits_slice(&none), true, false).lines.is_empty());
}

#[test]
fn stats_sections_show_run_validation_and_commits() {
    let out = value(
        r#"{
            "wall_ms": 2000,
            "usage_summary": {"prompt_tokens": 1},
            "validation_usage": {"model": "big", "wall_ms": 5, "usage_steps": [{"step": "v"}]},
            "commits": [
                {"sha": "aaa", "dry_run": true, "reference_chars": 3},
                {"sha": "bbb", "dry_run": true},
                {"sha": "ccc", "error": "x"},
                {"sha": "ddd"},
                {"sha": "eee", "subject": "s", "usage": {"api_calls": 2}, "usage_steps": [], "wall_ms": 61}
            ]
        }"#,
    );
    assert_eq!(
        print_stats_block(&out, &commits_slice(&out), false, tok).lines,
        vec![
            "".to_string(),
            " Usage & stats ".to_string(),
            rule(),
            "  Run-wide (all commits)".to_string(),
            "    prompt: <1>  tokens: —  api_calls: 0".to_string(),
            "    Wall time: 2.0s".to_string(),
            "".to_string(),
            "  Validation (big)".to_string(),
            "    prompt: —  tokens: —  api_calls: 0".to_string(),
            "    API steps".to_string(),
            "      step      prompt  tokens  time".to_string(),
            "      v              —       —     —".to_string(),
            "    Wall time: 5ms".to_string(),
            "".to_string(),
            "  Commit aaa".to_string(),
            "    (dry run)  reference_chars=3  patch_chars=0".to_string(),
            "".to_string(),
            "  Commit bbb".to_string(),
            "    (dry run)  (no API call, no `vng` invocation)".to_string(),
            "".to_string(),
            "  Commit ccc".to_string(),
            "    (review failed — see Findings for details)".to_string(),
            "".to_string(),
            "  Commit eee  s".to_string(),
            "    prompt: —  tokens: —  api_calls: 2".to_string(),
            "    Wall time: 61ms".to_string(),
            "".to_string(),
            dots(),
            "".to_string(),
        ]
    );
}

#[test]
fn stats_sections_say_when_there_is_nothing() {
    let out = value(r#"{"commits": [{"sha": "ddd"}], "validation_usage": {"model": ""}}"#);
    assert_eq!(
        print_stats_block(&out, &commits_slice(&out), false, tok).lines,
        vec![
            "".to_string(),
            " Usage & stats ".to_string(),
            rule(),
            "  Validation".to_string(),
            "    prompt: —  tokens: —  api_calls: 0".to_string(),
            "".to_string(),
            "  (no usage data)".to_string(),
            "".to_string(),
            dots(),
            "".to_string(),
        ]
    );
}

#[test]
fn apply_stats_show_run_and_steps() {
    let out = value(r#"{"usage_summary": {}, "wall_ms": 1, "usage_steps": [{"step": "x"}]}"#);
    assert_eq!(
        eprint_apply_stats(&out, false, tok).lines,
        vec![
            "".to_string(),
            " Usage & stats ".to_string(),
            rule(),
            "  Run-wide (apply)".to_string(),
            "    prompt: —  tokens: —  api_calls: 0".to_string(),
            "    Wall time: 1ms".to_string(),
            "".to_string(),
            "  API steps".to_string(),
            "    step      prompt  tokens  time".to_string(),
            "    x              —       —     —".to_string(),
            "".to_string(),
            dots(),
            "".to_string(),
        ]
    );
    assert_eq!(
        eprint_apply_stats(&value(r#"{"usage_steps": [], "wall_ms": 1}"#), false, tok).lines,
        vec![
            "".to_string(),
            " Usage & stats ".to_string(),
            rule(),
            "  (no usage data)".to_string(),
            "".to_string(),
            dots(),
            "".to_string(),
        ]
    );
}

#[test]
fn shares_that_do_not_fit_are_told_apart() {
    let fits = value(r#"{"usage_summary": {"prompt_tokens": 1, "cache_read_tokens": 184467440737095516}}"#);
    let exceeds = value(r#"{"usage_summary": {"prompt_tokens": 1, "cache_read_tokens": 184467440737095517}}"#);
    let no_prompt = value(r#"{"usage_summary": {"cache_read_tokens": 184467440737095517}}"#);
    assert!(can_print_apply_stats(&fits));
    assert!(!can_print_apply_stats(&exceeds));
    assert!(can_print_apply_stats(&no_prompt));
    assert!(can_print_report(&fits));
    assert!(!can_print_report(&exceeds));
}

#[test]
fn quick_summaries_count_issues() {
    let out = value(r#"{"summary": {"text": " All fine. ", "counts": {"Critical": 1, "Low": 20}}}"#);
    assert_eq!(
        print_quick_summary_block(&out, false).lines,
        vec![
            "".to_string(),
            " Quick Summary ".to_string(),
            rule(),
            "  All fine.".to_string(),
            "".to_string(),
            "  [Issues]  Critical:1  High:0  Medium:0  Low:20".to_string(),
            "".to_string(),
            dots(),
            "".to_string(),
        ]
    );
    assert_eq!(
        print_quick_summary_block(&value(r#"{"summary": 1}"#), true).lines[3],
        "  \x1b[96m\x1b[1m[Issues]\x1b[0m\x1b[39m  \x1b[91m\x1b[1mCritical:0\x1b[0m\x1b[39m  \
         \x1b[31m\x1b[1mHigh:0\x1b[0m\x1b[39m  \x1b[33mMedium:0\x1b[39m  \x1b[32mLow:0\x1b[39m"
    );
    assert!(print_quick_summary_block(&value("{}"), false).lines.is_empty());
}

#[test]
fn quick_summaries_ignore_highlights() {
    let plain = value(r#"{"summary": {"text": "t", "counts": {"High": 2}}}"#);
    let more = value(
        r#"{"summary": {"text": "t", "counts": {"High": 2}, "highlights": [{"title": "x"}]}}"#,
    );
    assert_eq!(
        print_quick_summary_block(&more, false).lines,
        print_quick_summary_block(&plain, false).lines
    );
}

#[test]
fn mail_texts_are_verbatim() {
    let out = value(
        r#"{"commits": [
            {"sha": "aaa", "subject": "s", "lkml_report": "> quoted\n\n  reply\n"},
            {"sha": "bbb", "lkml_report": ""},
            {"sha": "ccc", "lkml_report": "x"}
        ]}"#,
    );
    let bar = "·".repeat(60);
    assert_eq!(
        print_lkml_block(&commits_slice(&out), false).lines,
        vec![
            "".to_string(),
            " LKML-style report ".to_string(),
            rule(),
            "Commit aaa - s".to_string(),
            bar.clone(),
            "".to_string(),
            "> quoted".to_string(),
            "".to_string(),
            "  reply".to_string(),
            "".to_string(),
            "Commit ccc".to_string(),
            bar,
            "".to_string(),
            "x".to_string(),
            "".to_string(),
        ]
    );
    let coloured = print_lkml_block(&commits_slice(&out), true).lines;
    assert_eq!(coloured[3], "\x1b[95m\x1b[1mCommit aaa - s\x1b[0m\x1b[39m");
    assert_eq!(coloured[6..9], ["> quoted", "", "  reply"]);
    let none = value(r#"{"commits": [{"lkml_report": ""}]}"#);
    assert!(print_lkml_block(&commits_slice(&none), false).lines.is_empty());
}

fn titles(lines: &[String]) -> Vec<&str> {
    let mut found = Vec::new();
    for i in 1..lines.len() {
        if lines[i] == rule() {
            found.push(lines[i - 1].trim());
        }
    }
    found
}

fn stdout_titles(text: &str) -> Vec<String> {
    let printed = print_report_human(&value(text), false, false, tok);
    assert_eq!(titles(&printed.stderr.lines), vec!["Usage & stats"]);
    titles(&printed.stdout.lines).iter().map(|t| t.to_string()).collect()
}

#[test]
fn reports_have_the_sections_of_their_mode() {
    let commit = r#"{"sha": "aaa", "findings": [], "lkml_report": "x", "usage": {}}"#;
    assert_eq!(
        stdout_titles(&format!(r#"{{"commits": [{commit}], "summary": {{}}}}"#)),
        vec!["Quick Summary", "Findings", "LKML-style report"]
    );
    assert_eq!(
        stdout_titles(&format!(r#"{{"commits": [{commit}], "validation_mode": "off"}}"#)),
        vec!["Findings", "LKML-style report"]
    );
    assert_eq!(
        stdout_titles(&format!(r#"{{"commits": [{commit}], "validation_mode": "filter"}}"#)),
        vec!["Findings (validated)", "LKML-style report"]
    );
    assert_eq!(
        stdout_titles(&format!(r#"{{"commits": [{commit}], "validation_mode": "findings"}}"#)),
        vec!["Findings (validated)"]
    );
}

#[test]
fn fast_reports_show_only_the_mail_texts() {
    let fast = r#"{"sha": "aaa", "fast": true, "findings": [], "lkml_report": "x"}"#;
    let slow = r#"{"sha": "bbb", "findings": []}"#;
    assert_eq!(
        stdout_titles(&format!(r#"{{"commits": [{fast}]}}"#)),
        vec!["LKML-style report"]
    );
    assert_eq!(
        stdout_titles(&format!(r#"{{"commits": [{fast}, {slow}]}}"#)),
        vec!["Findings", "LKML-style report"]
    );
    assert_eq!(stdout_titles(r#"{"commits": []}"#), Vec::<String>::new());
}

#[test]
fn stdout_does_not_depend_on_usage() {
    let a = value(
        r#"{"summary": {}, "usage_summary": {"prompt_tokens": 3}, "wall_ms": 4,
            "commits": [{"sha": "aaa", "findings": [], "usage": {"prompt_tokens": 9}, "wall_ms": 1}]}"#,
    );
    let b = value(r#"{"summary": {}, "commits": [{"sha": "aaa", "findings": [], "usage_steps": [{}]}]}"#);
    let a = print_report_human(&a, true, false, tok);
    let b = print_report_human(&b, true, false, tok);
    assert_eq!(a.stdout.lines, b.stdout.lines);
    assert_ne!(a.stderr.lines, b.stderr.lines);
}

#[test]
fn each_stream_has_its_own_colour() {
    let out = value(r#"{"commits": [{"sha": "aaa", "findings": []}]}"#);
    let escapes = |ls: &Vec<String>| ls.iter().any(|l| l.contains('\x1b'));
    let printed = print_report_human(&out, true, false, tok);
    assert!(escapes(&printed.stdout.lines) && !escapes(&printed.stderr.lines));
    let printed = print_report_human(&out, false, true, tok);
    assert!(!escapes(&printed.stdout.lines) && escapes(&printed.stderr.lines));
}
