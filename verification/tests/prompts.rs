use inspect::findings::{
    candidates_text, findings_of, merge_findings, needs_validation, select_findings,
    strip_code_fences, Finding, IssueValue,
};
use inspect::types::{ChangeClassification, ChangeType};
use inspect::prompts::{
    build_rich_triage, format_deep_prompt, format_validate_prompt, truncate_diff, PROMPT_DEEP, PROMPT_VALIDATE,
    SYSTEM_REVIEW, SYSTEM_VALIDATE,
};

/// The entries of the list under `issues` in a JSON text.
fn issue_values(text: &str) -> Option<Vec<IssueValue>> {
    let value: serde_json::Value = serde_json::from_str(text).ok()?;
    let object = value.as_object()?;
    let items = match object.get("issues") {
        Some(items) => items.as_array()?.clone(),
        None => Vec::new(),
    };
    let field = |v: &serde_json::Value, key: &str| -> Option<String> {
        v.get(key).and_then(|x| x.as_str()).map(String::from)
    };
    Some(
        items
            .into_iter()
            .map(|v| match &v {
                serde_json::Value::String(s) => IssueValue::Text(s.clone()),
                serde_json::Value::Object(_) => IssueValue::Object {
                    issue: field(&v, "issue"),
                    evidence: field(&v, "evidence"),
                    severity: field(&v, "severity"),
                    file: field(&v, "file"),
                },
                _ => IssueValue::Other,
            })
            .collect(),
    )
}

fn parse_issues(text: &str) -> Vec<Finding> {
    match issue_values(&strip_code_fences(text)) {
        Some(values) => findings_of(values),
        None => Vec::new(),
    }
}

fn finding(issue: &str) -> Finding {
    Finding { issue: issue.into(), evidence: None, severity: None, file: None }
}

fn issues(found: &[Finding]) -> Vec<&str> {
    found.iter().map(|f| f.issue.as_str()).collect()
}

#[test]
fn test_parse_issues_string_array() {
    let input = r#"{"issues": ["bug 1", "bug 2"]}"#;
    let findings = parse_issues(input);
    assert_eq!(findings.len(), 2);
    assert_eq!(findings[0].issue, "bug 1");
}

#[test]
fn test_parse_issues_object_array() {
    let input = r#"{"issues": [{"issue": "null check missing", "evidence": "if (x)"}]}"#;
    let findings = parse_issues(input);
    assert_eq!(findings.len(), 1);
    assert_eq!(findings[0].issue, "null check missing");
    assert_eq!(findings[0].evidence.as_deref(), Some("if (x)"));
}

#[test]
fn test_parse_issues_with_code_fence() {
    let input = "```json\n{\"issues\": [\"bug\"]}\n```";
    let findings = parse_issues(input);
    assert_eq!(findings.len(), 1);
}

#[test]
fn test_strip_code_fences() {
    assert_eq!(strip_code_fences("```json\n{}\n```"), "{}");
    assert_eq!(strip_code_fences("```\n{}\n```"), "{}");
    assert_eq!(strip_code_fences("{}"), "{}");
}

#[test]
fn fences_at_the_edges_of_an_answer() {
    assert_eq!(strip_code_fences("  \n```json\n{\"a\": 1}\n```\n  "), "{\"a\": 1}");
    assert_eq!(strip_code_fences("```json\n{\"a\": 1}"), "{\"a\": 1}");
    assert_eq!(strip_code_fences("```"), "");
    assert_eq!(strip_code_fences("```json```"), "");
    assert_eq!(strip_code_fences("```x```y```z"), "x```y");
    assert_eq!(strip_code_fences("```jsonx```"), "x");
    assert_eq!(strip_code_fences("  plain  "), "plain");
    assert_eq!(strip_code_fences("a ```json\n{}\n```"), "a ```json\n{}\n```");
    assert_eq!(strip_code_fences(""), "");
    assert_eq!(strip_code_fences("``` json\n1\n```"), "json\n1");
}

#[test]
fn what_counts_as_a_finding() {
    let values = vec![
        IssueValue::Text("a".into()),
        IssueValue::Other,
        IssueValue::Object { issue: None, evidence: Some("e".into()), severity: None, file: None },
        IssueValue::Object {
            issue: Some("".into()),
            evidence: Some("e".into()),
            severity: None,
            file: None,
        },
        IssueValue::Text("".into()),
        IssueValue::Object {
            issue: Some("b".into()),
            evidence: Some("e".into()),
            severity: Some("high".into()),
            file: Some("f.rs".into()),
        },
    ];
    let found = findings_of(values);
    assert_eq!(issues(&found), vec!["a", "", "b"]);
    assert_eq!(found[0].evidence, None);
    assert_eq!(found[2].evidence.as_deref(), Some("e"));
    assert_eq!(found[2].severity.as_deref(), Some("high"));
    assert_eq!(found[2].file.as_deref(), Some("f.rs"));
    assert!(parse_issues("not json").is_empty());
    assert!(parse_issues("{}").is_empty());
    assert_eq!(issues(&parse_issues(r#"{"issues": [1, "x", null, {"issue": 2}, {"issue": "y"}]}"#)), vec!["x", "y"]);
}

#[test]
fn merged_findings_are_told_apart_by_the_beginning_of_the_issue() {
    let long_a = format!("{}{}", "x".repeat(80), "tail a");
    let long_b = format!("{}{}", "X".repeat(80), "tail b");
    let long_c = format!("{}{}", "x".repeat(79), "y tail");
    let first = vec![finding("Bug one"), finding(&long_a), finding("bug ONE"), finding("two")];
    let second = vec![finding("BUG ONE"), finding(&long_b), finding(&long_c), finding("three")];
    let merged = merge_findings(first, second);
    assert_eq!(issues(&merged), vec!["Bug one", long_a.as_str(), "two", long_c.as_str(), "three"]);
    assert!(merge_findings(vec![], vec![]).is_empty());
    assert_eq!(issues(&merge_findings(vec![], vec![finding("a"), finding("A")])), vec!["a"]);
}

#[test]
fn up_to_two_findings_need_no_second_look() {
    assert!(!needs_validation(&[]));
    assert!(!needs_validation(&[finding("a"), finding("b")]));
    assert!(needs_validation(&[finding("a"), finding("b"), finding("c")]));
    let two = vec![finding("a"), finding("b")];
    assert_eq!(issues(&select_findings(two.clone(), Some(vec![finding("v")]), 0)), vec!["a", "b"]);
    assert!(select_findings(vec![], Some(vec![finding("v")]), 5).is_empty());
    let three = vec![finding("a"), finding("b"), finding("c")];
    assert_eq!(
        issues(&select_findings(three.clone(), Some(vec![finding("v"), finding("w")]), 1)),
        vec!["v"]
    );
    assert_eq!(
        issues(&select_findings(three.clone(), Some(vec![finding("v"), finding("w")]), 15)),
        vec!["v", "w"]
    );
    assert!(select_findings(three.clone(), Some(vec![]), 15).is_empty());
    assert_eq!(issues(&select_findings(three.clone(), None, 2)), vec!["a", "b"]);
    assert_eq!(issues(&select_findings(three.clone(), None, 3)), vec!["a", "b", "c"]);
    assert!(select_findings(three, None, 0).is_empty());
}

#[test]
fn candidates_are_numbered_from_one() {
    assert_eq!(candidates_text(&[]), "");
    let mut with_evidence = finding("second");
    with_evidence.evidence = Some("if (x)".into());
    let list = vec![finding("first"), with_evidence, finding("third")];
    assert_eq!(
        candidates_text(&list),
        "1. first\n2. second\n   Evidence: if (x)\n3. third"
    );
    let many: Vec<Finding> = (0..11).map(|i| finding(&format!("i{}", i))).collect();
    assert!(candidates_text(&many).ends_with("\n10. i9\n11. i10"));
}

#[test]
fn prompts_with_their_places_filled() {
    let prompt = format_deep_prompt("Fix bug", "## Triage", "diff --git a b");
    assert_eq!(
        prompt,
        PROMPT_DEEP
            .replace("{pr_title}", "Fix bug")
            .replace("{triage_section}", "## Triage")
            .replace("{diff}", "diff --git a b")
    );
    assert!(prompt.contains("PR Title: Fix bug\n\n## Triage\n\nPR Diff:\ndiff --git a b\n"));
    assert!(prompt.ends_with("{{\"issues\": [{{\"issue\": \"description\", \"evidence\": \"the specific code\"}}]}}"));
    assert!(!prompt.contains("{pr_title}"));
    let prompt = format_validate_prompt("T", "D", "1. c");
    assert_eq!(
        prompt,
        PROMPT_VALIDATE.replace("{pr_title}", "T").replace("{diff}", "D").replace("{candidates}", "1. c")
    );
    assert!(prompt.contains("PR Title: T\n\nPR Diff (for verification):\nD\n\nCandidate Issues:\n1. c\n"));
    assert!(SYSTEM_REVIEW.ends_with("Always respond with valid JSON."));
    assert!(SYSTEM_VALIDATE.ends_with("Always respond with valid JSON."));
}

#[test]
fn a_place_that_a_filling_brings_in_is_filled_too() {
    let prompt = format_deep_prompt("{diff}", "{pr_title}", "D");
    assert!(prompt.contains("PR Title: D\n\n{pr_title}\n\nPR Diff:\nD\n"));
    let prompt = format_validate_prompt("{candidates}", "{pr_title}", "C");
    assert!(prompt.contains("PR Title: C\n\nPR Diff (for verification):\n{pr_title}\n\nCandidate Issues:\nC\n"));
}

const TEST_PART: &str = "diff --git a/tests/x_test.rs b/tests/x_test.rs\n+++ b/tests/x_test.rs\n+a\n+b\n+c\n+d\n";
const SRC_PART: &str = "diff --git a/src/lib.rs b/src/lib.rs\n+++ b/src/lib.rs\n+x\n-y\n";

#[test]
fn a_diff_that_fits_is_kept_whole() {
    let diff = format!("{}{}", TEST_PART, SRC_PART);
    assert_eq!(truncate_diff(&diff, diff.len()), diff);
    assert_eq!(truncate_diff(&diff, usize::MAX), diff);
    assert_eq!(truncate_diff("", 0), "");
    assert_eq!(truncate_diff("\u{e9}", 2), "\u{e9}");
}

#[test]
fn the_files_that_matter_most_are_kept() {
    let diff = format!("{}{}", TEST_PART, SRC_PART);
    // The source file weighs 4 at full weight, the test file 4 at three tenths.
    assert_eq!(truncate_diff(&diff, diff.len() - 1), SRC_PART);
    assert_eq!(truncate_diff(&diff, SRC_PART.len()), SRC_PART);
    let other_way = format!("{}{}", SRC_PART, TEST_PART);
    assert_eq!(truncate_diff(&other_way, other_way.len() - 1), SRC_PART);
}

#[test]
fn where_not_even_the_first_file_fits_the_beginning_is_kept() {
    let diff = format!("{}{}", TEST_PART, SRC_PART);
    assert_eq!(truncate_diff(&diff, SRC_PART.len() - 1), &diff[..SRC_PART.len() - 1]);
    assert_eq!(truncate_diff(&diff, 0), "");
    assert_eq!(truncate_diff("abc\u{e9}def", 4), "abc");
    assert_eq!(truncate_diff("abc\u{e9}def", 5), "abc\u{e9}");
}

#[test]
fn files_of_one_priority_keep_the_order_of_the_diff() {
    let one = "diff --git a/one.rs b/one.rs\n+1\n";
    let two = "diff --git a/two.rs b/two.rs\n+2\n";
    let three = "diff --git a/three.rs b/three.rs\n+3\n-3\n";
    let diff = format!("{}{}{}", one, two, three);
    assert_eq!(truncate_diff(&diff, diff.len() - 1), format!("{}{}", three, one));
    assert_eq!(truncate_diff(&diff, three.len() + 1), three);
    let preamble = format!("   \n{}", diff);
    assert_eq!(truncate_diff(&preamble, diff.len()), format!("{}{}{}", three, one, two));
}

#[test]
fn documentation_snapshots_and_configuration_count_for_less() {
    let src = "diff --git a/a.rs b/a.rs\n+1\n";
    let config = "diff --git a/a.toml b/a.toml\n+1\n+2\n";
    let docs = "diff --git a/README.md b/README.md\n+1\n+2\n+3\n+4\n+5\n";
    let lock = "diff --git a/Cargo.lock b/Cargo.lock\n+1\n+2\n+3\n+4\n+5\n+6\n+7\n+8\n+9\n+10\n";
    // Weights in ten-thousandths: source 1 * 10000, configuration 2 * 5000,
    // documentation 5 * 2000, lockfile 10 * 1000: all the same, so the order
    // of the diff decides.
    let diff = format!("{}{}{}{}", lock, docs, config, src);
    assert_eq!(truncate_diff(&diff, diff.len() - 1), format!("{}{}{}", lock, docs, config));
    let heavier = "diff --git a/b.rs b/b.rs\n+1\n+2\n";
    let diff = format!("{}{}", lock, heavier);
    assert_eq!(truncate_diff(&diff, diff.len() - 1), heavier);
}

fn entity(name: &str, file: &str, score: u64) -> inspect::types::EntityReview {
    inspect::types::EntityReview {
        entity_id: format!("{}::{}", file, name),
        entity_name: name.into(),
        entity_type: "function".into(),
        file_path: file.into(),
        change_type: inspect::types::ChangeType::Modified,
        classification: inspect::types::ChangeClassification::Functional,
        risk_score: score,
        risk_level: inspect::types::RiskLevel::Low,
        blast_radius: 0,
        dependent_count: 0,
        dependency_count: 0,
        is_public_api: false,
        structural_change: None,
        group_id: 0,
        start_line: 0,
        end_line: 0,
        before_content: None,
        after_content: None,
        dependent_names: vec![],
        dependency_names: vec![],
    }
}

#[test]
fn the_triage_section_lists_entities_file_by_file() {
    assert_eq!(build_rich_triage(&[]), "");
    let mut deleted = entity("gone", "a.rs", 900_000);
    deleted.change_type = ChangeType::Deleted;
    let mut chunk = entity("lines 1-3", "notes.txt", 800_000);
    chunk.entity_type = "chunk".into();
    assert_eq!(build_rich_triage(&[deleted.clone(), chunk.clone()]), "");
    let mut public = entity("open", "b.rs", 700_000);
    public.is_public_api = true;
    public.change_type = ChangeType::Added;
    public.classification = ChangeClassification::TextSyntax;
    let list = vec![
        entity("low", "a.rs", 100_000),
        deleted,
        public,
        entity("mid", "a.rs", 400_000),
        chunk,
        entity("tie", "c.rs", 400_000),
        entity("also", "b.rs", 400_000),
    ];
    assert_eq!(
        build_rich_triage(&list),
        "## Entity-level triage (highest-risk changes):\n\
         \n**b.rs**:\n  - open (function, Added, text+syntax) [PUBLIC API]\n  - also (function, Modified, functional)\n\
         \n**a.rs**:\n  - mid (function, Modified, functional)\n  - low (function, Modified, functional)\n\
         \n**c.rs**:\n  - tie (function, Modified, functional)"
    );
    let many: Vec<inspect::types::EntityReview> =
        (0..30).map(|i| entity(&format!("e{}", i), "a.rs", 1000 - i)).collect();
    let text = build_rich_triage(&many);
    assert_eq!(text.lines().filter(|l| l.starts_with("  - ")).count(), 20);
    assert!(text.contains("  - e19 ("));
    assert!(!text.contains("  - e20 ("));
}
