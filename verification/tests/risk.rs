use inspect::risk::{
    change_type_weight, classification_weight, compute_risk_score, is_public_api, score_to_level,
    blast_term, floor_sqrt, suggest_verdict, ReviewVerdict, CRITICAL_FROM, HIGH_FROM, MEDIUM_FROM, SCORE_ONE,
};
use inspect::types::{
    ChangeClassification, ChangeType, ChangeTypeBreakdown, ClassificationBreakdown, EntityReview,
    ReviewResult, ReviewStats, RiskBreakdown, RiskLevel, Timing,
};

fn make_review(
    change_type: ChangeType,
    classification: ChangeClassification,
    blast_radius: usize,
    dependent_count: usize,
    is_public: bool,
    structural_change: Option<bool>,
) -> EntityReview {
    EntityReview {
        entity_id: "test".into(),
        entity_name: "foo".into(),
        entity_type: "function".into(),
        file_path: "test.rs".into(),
        change_type,
        classification,
        risk_score: 0,
        risk_level: RiskLevel::Low,
        blast_radius,
        dependent_count,
        dependency_count: 0,
        is_public_api: is_public,
        structural_change,
        group_id: 0,
        start_line: 1,
        end_line: 10,
        before_content: None,
        after_content: None,
        dependent_names: vec![],
        dependency_names: vec![],
    }
}

/// The dependents term of a score in millionths, from the logarithm that
/// the formula asks for.
fn dependents_term(review: &EntityReview) -> u64 {
    ((1.0 + review.dependent_count as f64).ln() * 0.15 * 1_000_000.0).round() as u64
}

fn score_of(review: &EntityReview, total_entities: usize) -> u64 {
    compute_risk_score(review, total_entities, dependents_term(review))
}

#[test]
fn cosmetic_change_is_low_risk() {
    let review = make_review(
        ChangeType::Modified,
        ChangeClassification::Text,
        0,
        0,
        false,
        Some(false),
    );
    let score = score_of(&review, 10);
    assert_eq!(score_to_level(score), RiskLevel::Low);
}

#[test]
fn deleted_public_with_dependents_is_critical() {
    let review = make_review(
        ChangeType::Deleted,
        ChangeClassification::Functional,
        8,
        5,
        true,
        Some(true),
    );
    let score = score_of(&review, 10);
    assert!(score >= 700_000, "Expected Critical, got score={score}");
    assert_eq!(score_to_level(score), RiskLevel::Critical);
}

#[test]
fn added_private_entity_is_low() {
    let review = make_review(
        ChangeType::Added,
        ChangeClassification::Functional,
        0,
        0,
        false,
        None,
    );
    let score = score_of(&review, 10);
    assert_eq!(score_to_level(score), RiskLevel::Low);
}

#[test]
fn modified_functional_no_graph_is_medium() {
    let review = make_review(
        ChangeType::Modified,
        ChangeClassification::Functional,
        0,
        0,
        false,
        Some(true),
    );
    let score = score_of(&review, 100);
    assert_eq!(score_to_level(score), RiskLevel::Medium);
}

#[test]
fn public_api_with_dependents_is_high() {
    let review = make_review(
        ChangeType::Modified,
        ChangeClassification::Functional,
        5,
        8,
        true,
        Some(true),
    );
    let score = score_of(&review, 100);
    assert!(score >= 500_000, "Expected High+, got score={score}");
}

#[test]
fn deleted_public_function_with_eight_dependents_is_critical() {
    let review = make_review(
        ChangeType::Deleted,
        ChangeClassification::Functional,
        8,
        8,
        true,
        Some(true),
    );
    let score = score_of(&review, 10);
    assert!(score >= 700_000);
    assert_eq!(score_to_level(score), RiskLevel::Critical);
}

#[test]
fn the_weights_are_those_of_the_table() {
    assert_eq!(classification_weight(ChangeClassification::Text), 0);
    assert_eq!(classification_weight(ChangeClassification::Syntax), 80_000);
    assert_eq!(classification_weight(ChangeClassification::Functional), 220_000);
    assert_eq!(classification_weight(ChangeClassification::TextSyntax), 100_000);
    assert_eq!(classification_weight(ChangeClassification::TextFunctional), 220_000);
    assert_eq!(classification_weight(ChangeClassification::SyntaxFunctional), 250_000);
    assert_eq!(classification_weight(ChangeClassification::TextSyntaxFunctional), 280_000);
    assert_eq!(change_type_weight(ChangeType::Deleted), 120_000);
    assert_eq!(change_type_weight(ChangeType::Modified), 80_000);
    assert_eq!(change_type_weight(ChangeType::Renamed), 40_000);
    assert_eq!(change_type_weight(ChangeType::Moved), 0);
    assert_eq!(change_type_weight(ChangeType::Added), 20_000);
}

#[test]
fn the_score_adds_then_discounts_then_caps() {
    let mut review = make_review(
        ChangeType::Modified,
        ChangeClassification::SyntaxFunctional,
        3,
        1,
        true,
        Some(true),
    );
    // 0.25 + 0.08 + 0.12 + sqrt(3 / 12) * 0.30 + 0.104
    assert_eq!(compute_risk_score(&review, 12, 104_000), 704_000);
    review.structural_change = Some(false);
    assert_eq!(compute_risk_score(&review, 12, 104_000), 140_800);
    review.structural_change = None;
    assert_eq!(compute_risk_score(&review, 12, 104_000), 704_000);
    // No entities in the graph: the blast term does not count.
    assert_eq!(compute_risk_score(&review, 0, 104_000), 554_000);
    // No blast radius: the same.
    review.blast_radius = 0;
    assert_eq!(compute_risk_score(&review, 12, 104_000), 554_000);
    // No dependents: their term does not count.
    review.dependent_count = 0;
    assert_eq!(compute_risk_score(&review, 12, 104_000), 450_000);
    // The cap.
    review.blast_radius = 1;
    review.dependent_count = 1;
    assert_eq!(compute_risk_score(&review, 12, u64::MAX), SCORE_ONE);
    review.structural_change = Some(false);
    assert_eq!(compute_risk_score(&review, 12, u64::MAX), SCORE_ONE);
    // (0.45 + 0.086602 + 4.463397) / 5, rounded down
    assert_eq!(compute_risk_score(&review, 12, 4_463_397), 999_999);
    assert_eq!(compute_risk_score(&review, 12, 4_463_398), 1_000_000);
}

#[test]
fn the_blast_term_is_three_tenths_of_the_root_of_the_ratio() {
    assert_eq!(blast_term(0, 10), 0);
    assert_eq!(blast_term(5, 0), 0);
    assert_eq!(blast_term(0, 0), 0);
    assert_eq!(blast_term(10, 10), 300_000);
    assert_eq!(blast_term(1, 4), 150_000);
    assert_eq!(blast_term(8, 10), 268_328);
    assert_eq!(blast_term(5, 100), 67_082);
    assert_eq!(blast_term(3, 4), 259_807);
    assert_eq!(blast_term(40, 10), 600_000);
    assert_eq!(blast_term(1, usize::MAX), 0);
    for (blast, total) in [(1usize, 3usize), (2, 7), (10_000, 12_345), (7, 7_000_000)] {
        let exact = (blast as f64 / total as f64).sqrt() * 300_000.0;
        let found = blast_term(blast, total) as f64;
        assert!(found <= exact && exact < found + 1.0, "{} / {}", blast, total);
    }
}

#[test]
fn square_roots_rounded_down() {
    for (x, r) in [(0u128, 0u64), (1, 1), (2, 1), (3, 1), (4, 2), (8, 2), (9, 3), (99, 9), (100, 10)] {
        assert_eq!(floor_sqrt(x), r);
    }
    for r in [0u128, 1, 2, 1000, 65_535, 65_536, 4_294_967_295, 4_294_967_296, (1 << 63) - 1] {
        assert_eq!(floor_sqrt(r * r) as u128, r);
        assert_eq!(floor_sqrt(r * r + 2 * r) as u128, r);
        if r > 0 {
            assert_eq!(floor_sqrt(r * r - 1) as u128, r - 1);
        }
    }
    assert_eq!(floor_sqrt((1u128 << 126) - 1), (1u64 << 63) - 1);
}

#[test]
fn scores_lie_between_zero_and_one() {
    let classes = [
        ChangeClassification::Text,
        ChangeClassification::Syntax,
        ChangeClassification::Functional,
        ChangeClassification::TextSyntax,
        ChangeClassification::TextFunctional,
        ChangeClassification::SyntaxFunctional,
        ChangeClassification::TextSyntaxFunctional,
    ];
    let types = [
        ChangeType::Added,
        ChangeType::Modified,
        ChangeType::Deleted,
        ChangeType::Moved,
        ChangeType::Renamed,
    ];
    for c in classes {
        for t in types {
            for public in [false, true] {
                for structural in [None, Some(false), Some(true)] {
                    for (blast, deps, total) in [(0, 0, 0), (5, 0, 10), (10_000, 900, 3), (1, 7, 1)] {
                        let review = make_review(t, c, blast, deps, public, structural);
                        let score = score_of(&review, total);
                        assert!(score <= SCORE_ONE);
                    }
                }
            }
        }
    }
}

#[test]
fn levels_by_their_thresholds() {
    assert_eq!((MEDIUM_FROM, HIGH_FROM, CRITICAL_FROM), (300_000, 500_000, 700_000));
    assert_eq!(score_to_level(0), RiskLevel::Low);
    assert_eq!(score_to_level(299_999), RiskLevel::Low);
    assert_eq!(score_to_level(300_000), RiskLevel::Medium);
    assert_eq!(score_to_level(499_999), RiskLevel::Medium);
    assert_eq!(score_to_level(500_000), RiskLevel::High);
    assert_eq!(score_to_level(699_999), RiskLevel::High);
    assert_eq!(score_to_level(700_000), RiskLevel::Critical);
    assert_eq!(score_to_level(1_000_000), RiskLevel::Critical);
    assert_eq!(score_to_level(u64::MAX), RiskLevel::Critical);
}

#[test]
fn a_higher_score_is_never_of_a_lower_level() {
    let mut last = RiskLevel::Low;
    let mut score = 0u64;
    while score <= 1_000_000 {
        let level = score_to_level(score);
        assert!(level.rank() >= last.rank());
        assert!(level >= last);
        last = level;
        score += 12_500;
    }
    assert_eq!(RiskLevel::Low.rank(), 0);
    assert_eq!(RiskLevel::Critical.rank(), 3);
    assert!(RiskLevel::High.at_least(RiskLevel::Medium));
    assert!(RiskLevel::High.at_least(RiskLevel::High));
    assert!(!RiskLevel::High.at_least(RiskLevel::Critical));
    assert_eq!(RiskLevel::Medium.label(), "medium");
    assert_eq!(RiskLevel::Low.label(), "low");
    assert_eq!(RiskLevel::High.label(), "high");
    assert_eq!(RiskLevel::Critical.label(), "critical");
}

#[test]
fn a_cosmetic_change_without_graph_impact_is_low() {
    for public in [false, true] {
        for t in [ChangeType::Deleted, ChangeType::Modified, ChangeType::Added] {
            let review = make_review(
                t,
                ChangeClassification::TextSyntaxFunctional,
                0,
                0,
                public,
                Some(false),
            );
            let score = compute_risk_score(&review, 50, u64::MAX);
            assert!(score < 300_000);
            assert_eq!(score_to_level(score), RiskLevel::Low);
        }
    }
    let largest = make_review(
        ChangeType::Deleted,
        ChangeClassification::TextSyntaxFunctional,
        0,
        0,
        true,
        Some(false),
    );
    assert_eq!(compute_risk_score(&largest, 50, u64::MAX), 104_000);
}

#[test]
fn public_by_marker_or_by_name() {
    assert!(is_public_api("function", "foo", Some("pub fn foo() {}")));
    assert!(is_public_api("function", "foo", Some("pub(crate) fn foo() {}")));
    assert!(is_public_api("function", "foo", Some("export function foo() {}")));
    assert!(is_public_api("variable", "foo", Some("module.exports = foo")));
    assert!(!is_public_api("function", "foo", Some("fn foo() {}\npub fn bar() {}")));
    assert!(!is_public_api("function", "foo", Some(" pub fn foo() {}")));
    assert!(!is_public_api("function", "foo", Some("public void foo()")));
    assert!(!is_public_api("function", "foo", Some("")));
    assert!(!is_public_api("function", "foo", None));
    assert!(is_public_api("function", "Foo", None));
    assert!(is_public_api("method", "Foo", Some("func (s S) Foo()")));
    assert!(is_public_api("struct", "Foo", None));
    assert!(is_public_api("interface", "Foo", None));
    assert!(!is_public_api("class", "Foo", None));
    assert!(!is_public_api("Function", "Foo", None));
    assert!(!is_public_api("function", "", None));
    assert!(!is_public_api("function", "_Foo", None));
    assert!(is_public_api("function", "\u{394}elta", None));
    assert!(!is_public_api("function", "\u{3b4}elta", None));
    assert!(is_public_api("enum", "x", Some("pub enum x {\r\n}")));
}

fn result_of(reviews: Vec<EntityReview>, critical: usize, high: usize) -> ReviewResult {
    ReviewResult {
        stats: ReviewStats {
            total_entities: reviews.len(),
            by_risk: RiskBreakdown { critical, high, medium: 0, low: 0 },
            by_classification: ClassificationBreakdown {
                text: 0,
                syntax: 0,
                functional: 0,
                mixed: 0,
            },
            by_change_type: ChangeTypeBreakdown {
                added: 0,
                modified: 0,
                deleted: 0,
                moved: 0,
                renamed: 0,
            },
        },
        entity_reviews: reviews,
        groups: vec![],
        timing: Timing {
            diff_ms: 0,
            list_files_ms: 0,
            file_count: 0,
            graph_build_ms: 0,
            graph_entity_count: 0,
            scoring_ms: 0,
            total_ms: 0,
        },
        changes: vec![],
    }
}

#[test]
fn the_verdict_goes_by_the_worst_level_then_by_cosmetics() {
    let cosmetic = || {
        make_review(ChangeType::Modified, ChangeClassification::Text, 0, 0, false, Some(false))
    };
    let real = || {
        make_review(ChangeType::Modified, ChangeClassification::Functional, 0, 0, false, Some(true))
    };
    let unknown =
        || make_review(ChangeType::Added, ChangeClassification::Functional, 0, 0, false, None);
    assert_eq!(
        suggest_verdict(&result_of(vec![cosmetic()], 1, 1)),
        ReviewVerdict::RequiresCarefulReview
    );
    assert_eq!(suggest_verdict(&result_of(vec![cosmetic()], 0, 2)), ReviewVerdict::RequiresReview);
    assert_eq!(
        suggest_verdict(&result_of(vec![cosmetic(), cosmetic()], 0, 0)),
        ReviewVerdict::LikelyApprovable
    );
    assert_eq!(
        suggest_verdict(&result_of(vec![cosmetic(), real()], 0, 0)),
        ReviewVerdict::StandardReview
    );
    assert_eq!(
        suggest_verdict(&result_of(vec![unknown()], 0, 0)),
        ReviewVerdict::StandardReview
    );
    assert_eq!(suggest_verdict(&result_of(vec![], 0, 0)), ReviewVerdict::StandardReview);
    assert_eq!(ReviewVerdict::LikelyApprovable.label(), "likely_approvable");
    assert_eq!(ReviewVerdict::StandardReview.label(), "standard_review");
    assert_eq!(ReviewVerdict::RequiresReview.label(), "requires_review");
    assert_eq!(ReviewVerdict::RequiresCarefulReview.label(), "requires_careful_review");
}
