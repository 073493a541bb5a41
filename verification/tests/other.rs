use inspect::bench::{benchmark_commit, parse_commit_line, risk_distribution};
use inspect::job::{
    advance, failure_message, JobEvent, JobRecord, JobStatus, JobStep, TimingInfo,
};
use inspect::llm::{
    build_prompt, json_payload, llm_review, unparsed_output, LlmIssue, LlmOutput, LlmVerdict,
};
use inspect::riskmap::risk_map;
use inspect::scope::{
    entities_in_file, entities_in_group, find_entity, keep_at_least, keep_in_file,
    parse_risk_level, parse_scope, parse_target, Scope,
};
use inspect::types::{
    ChangeClassification, ChangeGroup, ChangeType, ChangeTypeBreakdown, ClassificationBreakdown,
    EntityReview, ReviewResult, ReviewStats, RiskBreakdown, RiskLevel, Timing,
};

fn review(id: &str, file: &str, level: RiskLevel) -> EntityReview {
    EntityReview {
        entity_id: id.into(),
        entity_name: id.into(),
        entity_type: "function".into(),
        file_path: file.into(),
        change_type: ChangeType::Modified,
        classification: ChangeClassification::Functional,
        risk_score: 565_000,
        risk_level: level,
        blast_radius: 0,
        dependent_count: 0,
        dependency_count: 0,
        is_public_api: false,
        structural_change: Some(true),
        group_id: 0,
        start_line: 1,
        end_line: 2,
        before_content: None,
        after_content: None,
        dependent_names: vec![],
        dependency_names: vec![],
    }
}

const STATUSES: [JobStatus; 5] = [
    JobStatus::Pending,
    JobStatus::Analyzing,
    JobStatus::Reviewing,
    JobStatus::Complete,
    JobStatus::Failed,
];

const EVENTS: [JobEvent; 4] = [JobEvent::Started, JobEvent::Triaged, JobEvent::Reviewed, JobEvent::Broke];

fn stage(s: JobStatus) -> u8 {
    match s {
        JobStatus::Pending => 0,
        JobStatus::Analyzing => 1,
        JobStatus::Reviewing => 2,
        JobStatus::Complete => 3,
        JobStatus::Failed => 3,
    }
}

#[test]
fn a_job_runs_through_its_stages() {
    let mut status = JobStatus::Pending;
    status = advance(status, JobEvent::Started);
    assert_eq!(status, JobStatus::Analyzing);
    status = advance(status, JobEvent::Triaged);
    assert_eq!(status, JobStatus::Reviewing);
    status = advance(status, JobEvent::Reviewed);
    assert_eq!(status, JobStatus::Complete);
    assert_eq!(advance(JobStatus::Pending, JobEvent::Broke), JobStatus::Failed);
    assert_eq!(advance(JobStatus::Analyzing, JobEvent::Broke), JobStatus::Failed);
    assert_eq!(advance(JobStatus::Reviewing, JobEvent::Broke), JobStatus::Failed);
    assert_eq!(advance(JobStatus::Pending, JobEvent::Triaged), JobStatus::Pending);
    assert_eq!(advance(JobStatus::Pending, JobEvent::Reviewed), JobStatus::Pending);
    assert_eq!(advance(JobStatus::Analyzing, JobEvent::Started), JobStatus::Analyzing);
    assert_eq!(advance(JobStatus::Reviewing, JobEvent::Triaged), JobStatus::Reviewing);
}

#[test]
fn a_job_never_goes_back() {
    for s in STATUSES {
        for e in EVENTS {
            let next = advance(s, e);
            assert!(stage(next) >= stage(s));
            if next != s {
                assert!(stage(next) > stage(s));
            }
            if s == JobStatus::Complete || s == JobStatus::Failed {
                assert_eq!(next, s);
            }
        }
    }
    for a in EVENTS {
        for b in EVENTS {
            for c in EVENTS {
                for d in EVENTS {
                    let mut seen = vec![JobStatus::Pending];
                    for e in [a, b, c, d] {
                        let next = advance(*seen.last().unwrap(), e);
                        if next != *seen.last().unwrap() {
                            assert!(!seen.contains(&next));
                            seen.push(next);
                        }
                    }
                }
            }
        }
    }
}

#[test]
fn the_record_of_a_job() {
    let timing = TimingInfo { triage_ms: 1, review_ms: 2, total_ms: 3 };
    let mut job = JobRecord::new();
    assert_eq!((job.status, job.error.clone(), job.timing), (JobStatus::Pending, None, None));
    job.complete(timing);
    assert_eq!((job.status, job.timing), (JobStatus::Pending, None));
    job.start();
    job.triaged();
    assert_eq!(job.status, JobStatus::Reviewing);
    job.complete(timing);
    assert_eq!((job.status, job.error.clone(), job.timing), (JobStatus::Complete, None, Some(timing)));
    job.fail("late".into());
    assert_eq!((job.status, job.error.clone(), job.timing), (JobStatus::Complete, None, Some(timing)));
    let mut job = JobRecord::new();
    job.start();
    job.fail("Failed to fetch PR: 404".into());
    assert_eq!(job.status, JobStatus::Failed);
    assert_eq!(job.error.as_deref(), Some("Failed to fetch PR: 404"));
    job.fail("again".into());
    job.triaged();
    job.complete(timing);
    assert_eq!(job.status, JobStatus::Failed);
    assert_eq!(job.error.as_deref(), Some("Failed to fetch PR: 404"));
    assert_eq!(job.timing, None);
}

#[test]
fn the_words_of_a_job() {
    let labels: Vec<&str> = STATUSES.iter().map(|s| s.label()).collect();
    assert_eq!(labels, vec!["pending", "analyzing", "reviewing", "complete", "failed"]);
    assert_eq!(failure_message(JobStep::Authenticate, "no token"), "GitHub auth failed: no token");
    assert_eq!(failure_message(JobStep::FetchPullRequest, "404"), "Failed to fetch PR: 404");
    assert_eq!(failure_message(JobStep::Analyze, "git error: x"), "Analysis failed: git error: x");
    assert_eq!(failure_message(JobStep::FetchDiff, ""), "Failed to fetch diff: ");
}

#[test]
fn the_payload_of_an_answer() {
    assert_eq!(json_payload("```json\n{\"a\": 1}\n```"), "{\"a\": 1}");
    assert_eq!(json_payload("  ```\n{}\n```  "), "{}");
    assert_eq!(json_payload("{\"a\": 1}"), "{\"a\": 1}");
    assert_eq!(json_payload("  plain  "), "plain");
    assert_eq!(json_payload("```json\n{}"), "```json\n{}");
    assert_eq!(json_payload("```json\n{}\n``` tail"), "```json\n{}\n``` tail");
    assert_eq!(json_payload("```"), "```");
    assert_eq!(json_payload("``````"), "");
    assert_eq!(json_payload("```json```"), "");
    assert_eq!(json_payload(""), "");
}

#[test]
fn an_answer_that_cannot_be_read_becomes_a_comment() {
    let out = unparsed_output("free text");
    assert_eq!(out.verdict, LlmVerdict::Comment);
    assert_eq!(out.issues.len(), 1);
    assert_eq!(out.issues[0].severity, "info");
    assert_eq!(out.issues[0].description, "free text");
    assert_eq!(out.summary, "Could not parse structured response");
    let entity = review("id", "src/a.rs", RiskLevel::High);
    let r = llm_review(&entity, None, "free text", 10, 5);
    assert_eq!(r.entity_name, "id");
    assert_eq!(r.file_path, "src/a.rs");
    assert_eq!(r.verdict, LlmVerdict::Comment);
    assert_eq!(r.issues[0].description, "free text");
    assert_eq!(r.tokens_used, 15);
    let output = LlmOutput {
        verdict: LlmVerdict::RequestChanges,
        issues: vec![LlmIssue { severity: "error".into(), description: "d".into() }],
        summary: "s".into(),
    };
    let r = llm_review(&entity, Some(output), "ignored", u64::MAX, 2);
    assert_eq!(r.verdict, LlmVerdict::RequestChanges);
    assert_eq!(r.issues.len(), 1);
    assert_eq!(r.issues[0].severity, "error");
    assert_eq!(r.summary, "s");
    assert_eq!(r.tokens_used, 1);
}

#[test]
fn the_prompt_for_an_entity() {
    let mut entity = review("foo", "src/a.rs", RiskLevel::High);
    entity.blast_radius = 12;
    entity.dependent_count = 3;
    assert_eq!(
        build_prompt(&entity),
        "Entity: foo (function)\n\nFile: src/a.rs\n\nChange: Modified\n\nClassification: functional\n\n\
         Risk: high (score 0.57)\n\nBlast radius: 12, Dependents: 3"
    );
    entity.is_public_api = true;
    entity.risk_score = 1_000_000;
    entity.dependent_names =
        (0..12).map(|i| (format!("d{}", i), format!("f{}.rs", i))).collect();
    entity.before_content = Some("old".into());
    entity.after_content = Some("new".into());
    let prompt = build_prompt(&entity);
    assert!(prompt.contains("\n\nRisk: high (score 1.00)\n\n"));
    assert!(prompt.contains("\n\nPublic API: yes\n\nDependents:\n  d0 (f0.rs)\n  d1 (f1.rs)\n"));
    assert!(prompt.contains("\n  d9 (f9.rs)\n\nBEFORE:\n```\nold\n```\n\nAFTER:\n```\nnew\n```"));
    assert!(!prompt.contains("d10"));
    assert!(prompt.ends_with("```"));
    for (score, text) in [(0u64, "0.00"), (4_999, "0.00"), (5_000, "0.01"), (94_999, "0.09"), (95_000, "0.10"), (999_999, "1.00"), (12_345_678, "12.35")] {
        entity.risk_score = score;
        assert!(build_prompt(&entity).contains(&format!("(score {})", text)), "{}", score);
    }
}

#[test]
fn the_scope_that_a_target_names() {
    let seen = |s: Scope| match s {
        Scope::Commit { sha } => format!("commit {}", sha),
        Scope::Range { from, to } => format!("range {} {}", from, to),
        Scope::Working => "working".to_string(),
    };
    assert_eq!(seen(parse_scope("HEAD~1")), "commit HEAD~1");
    assert_eq!(seen(parse_scope("main..feature")), "range main feature");
    assert_eq!(seen(parse_scope("a..b..c")), "range a b");
    assert_eq!(seen(parse_scope("main...feature")), "range main .feature");
    assert_eq!(seen(parse_scope("..")), "range  ");
    assert_eq!(seen(parse_scope("a..")), "range a ");
    assert_eq!(seen(parse_scope("")), "commit ");
    assert_eq!(seen(parse_scope("working")), "commit working");
    assert_eq!(seen(parse_target("working")), "working");
    assert_eq!(seen(parse_target("Working")), "commit Working");
    assert_eq!(seen(parse_target("a..b")), "range a b");
    for target in ["a..b", "a..b..c", "main...feature", "..", "x....y"] {
        let parts: Vec<&str> = target.split("..").collect();
        assert_eq!(seen(parse_scope(target)), format!("range {} {}", parts[0], parts[1]));
    }
}

#[test]
fn the_level_that_a_word_names() {
    assert_eq!(parse_risk_level("critical"), RiskLevel::Critical);
    assert_eq!(parse_risk_level("HIGH"), RiskLevel::High);
    assert_eq!(parse_risk_level("Medium"), RiskLevel::Medium);
    assert_eq!(parse_risk_level("low"), RiskLevel::Low);
    assert_eq!(parse_risk_level("unknown"), RiskLevel::Low);
    assert_eq!(parse_risk_level(""), RiskLevel::Low);
    assert_eq!(parse_risk_level(" high"), RiskLevel::Low);
}

#[test]
fn reviews_kept_by_level_and_by_file() {
    let all = || {
        vec![
            review("a", "src/a.rs", RiskLevel::Low),
            review("b", "src/b.rs", RiskLevel::Critical),
            review("c", "lib/a.rs", RiskLevel::Medium),
            review("d", "src/a.rs", RiskLevel::High),
        ]
    };
    let kept = |v: Vec<EntityReview>| -> Vec<String> { v.into_iter().map(|r| r.entity_id).collect() };
    assert_eq!(kept(keep_at_least(all(), RiskLevel::Low)), vec!["a", "b", "c", "d"]);
    assert_eq!(kept(keep_at_least(all(), RiskLevel::Medium)), vec!["b", "c", "d"]);
    assert_eq!(kept(keep_at_least(all(), RiskLevel::High)), vec!["b", "d"]);
    assert_eq!(kept(keep_at_least(all(), RiskLevel::Critical)), vec!["b"]);
    assert_eq!(kept(keep_in_file(all(), "a.rs")), vec!["a", "c", "d"]);
    assert_eq!(kept(keep_in_file(all(), "src/a.rs")), vec!["a", "d"]);
    assert_eq!(kept(keep_in_file(all(), "")), vec!["a", "b", "c", "d"]);
    assert!(keep_in_file(all(), "x/src/a.rs").is_empty());
}

fn result_of(reviews: Vec<EntityReview>, groups: usize) -> ReviewResult {
    ReviewResult {
        stats: ReviewStats {
            total_entities: reviews.len(),
            by_risk: RiskBreakdown { critical: 0, high: 0, medium: 0, low: 0 },
            by_classification: ClassificationBreakdown {
                text: 0,
                syntax: 0,
                functional: 0,
                mixed: 0,
            },
            by_change_type: ChangeTypeBreakdown {
                added: 0,
                modified: 0,
                deleted: 0,
                moved: 0,
                renamed: 0,
            },
        },
        entity_reviews: reviews,
        groups: (0..groups)
            .map(|i| ChangeGroup { id: i, label: "g".into(), entity_ids: vec!["a".into()] })
            .collect(),
        timing: Timing {
            diff_ms: 0,
            list_files_ms: 0,
            file_count: 0,
            graph_build_ms: 0,
            graph_entity_count: 0,
            scoring_ms: 0,
            total_ms: 0,
        },
        changes: vec![],
    }
}

#[test]
fn the_counts_of_a_commit() {
    assert!(benchmark_commit("abc", "msg", &result_of(vec![], 0)).is_none());
    let mut a = review("a", "src/a.rs", RiskLevel::Low);
    a.structural_change = Some(false);
    a.blast_radius = 3;
    let mut b = review("b", "src/b.rs", RiskLevel::Critical);
    b.dependent_count = 2;
    b.blast_radius = 9;
    let mut c = review("c", "src/a.rs", RiskLevel::High);
    c.structural_change = None;
    c.dependent_count = 1;
    c.blast_radius = 4;
    let d = review("d", "src/d.rs", RiskLevel::Medium);
    let result = result_of(vec![a, b, c, d], 2);
    let bench = benchmark_commit("abc123", "fix: the thing", &result).unwrap();
    assert_eq!(bench.sha, "abc123");
    assert_eq!(bench.message, "fix: the thing");
    assert_eq!(bench.entity_count, 4);
    assert_eq!(bench.file_count, 3);
    assert_eq!(bench.group_count, 2);
    assert_eq!(bench.cosmetic_count, 1);
    assert_eq!(bench.high_critical_count, 2);
    assert_eq!(bench.max_blast_radius, 9);
    assert_eq!(bench.cross_file_impacts, 2);
    let d = risk_distribution(&result);
    assert_eq!((d.critical, d.high, d.medium, d.low), (1, 1, 1, 1));
}

#[test]
fn hash_and_subject_of_a_line_of_the_log() {
    assert_eq!(
        parse_commit_line("abc123 fix: the thing"),
        Some(("abc123".to_string(), "fix: the thing".to_string()))
    );
    assert_eq!(parse_commit_line("abc "), Some(("abc".to_string(), "".to_string())));
    assert_eq!(parse_commit_line(" x"), Some(("".to_string(), "x".to_string())));
    assert_eq!(parse_commit_line("abc"), None);
    assert_eq!(parse_commit_line(""), None);
}

#[test]
fn the_risk_of_each_file() {
    assert!(risk_map(&[]).is_empty());
    let mut a1 = review("a1", "a.rs", RiskLevel::Medium);
    a1.risk_score = 300_000;
    let mut b1 = review("b1", "b.rs", RiskLevel::Critical);
    b1.risk_score = 800_000;
    b1.is_public_api = true;
    let mut a2 = review("a2", "a.rs", RiskLevel::High);
    a2.risk_score = 600_000;
    a2.is_public_api = true;
    let mut a3 = review("a3", "a.rs", RiskLevel::Critical);
    a3.risk_score = 600_000;
    let mut c1 = review("c1", "c.rs", RiskLevel::High);
    c1.risk_score = 0;
    let mut d1 = review("d1", "d.rs", RiskLevel::High);
    d1.risk_score = 600_000;
    let map = risk_map(&[a1, b1, c1, a2, a3, d1]);
    let seen: Vec<(&str, u64, RiskLevel, usize, usize, usize, usize)> = map
        .iter()
        .map(|r| {
            (
                r.file.as_str(),
                r.max_score,
                r.max_risk,
                r.entity_count,
                r.critical,
                r.high,
                r.public_api_changes,
            )
        })
        .collect();
    assert_eq!(
        seen,
        vec![
            ("b.rs", 800_000, RiskLevel::Critical, 1, 1, 0, 1),
            ("a.rs", 600_000, RiskLevel::High, 3, 1, 1, 1),
            ("d.rs", 600_000, RiskLevel::High, 1, 0, 1, 0),
            ("c.rs", 0, RiskLevel::Low, 1, 0, 1, 0),
        ]
    );
}

#[test]
fn reviews_found_by_name_file_and_group() {
    let mut list = vec![
        review("a", "src/a.rs", RiskLevel::Low),
        review("b", "src/b.rs", RiskLevel::Low),
        review("a", "lib/a.rs", RiskLevel::Low),
        review("c", "lib/c.rs", RiskLevel::Low),
    ];
    list[2].entity_id = "a2".into();
    assert_eq!(find_entity(&list, "a", None), Some(0));
    assert_eq!(find_entity(&list, "a", Some("lib/a.rs")), Some(2));
    assert_eq!(find_entity(&list, "a", Some("a.rs")), Some(0));
    assert_eq!(find_entity(&list, "a", Some("b.rs")), None);
    assert_eq!(find_entity(&list, "x", None), None);
    assert_eq!(find_entity(&[], "a", None), None);
    assert_eq!(entities_in_file(&list, "a.rs"), vec![0, 2]);
    assert_eq!(entities_in_file(&list, "lib/c.rs"), vec![3]);
    assert!(entities_in_file(&list, "x.rs").is_empty());
    assert_eq!(
        entities_in_group(&list, &["c".to_string(), "a2".to_string(), "zz".to_string()]),
        vec![2, 3]
    );
    assert!(entities_in_group(&list, &[]).is_empty());
}
