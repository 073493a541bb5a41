//! The risk scorer: a score between 0 and 1 for each review, the level it
//! falls under, and the verdict that a whole result suggests.
//!
//! Scores are fixed-point numbers in millionths. The square root in the score
//! is taken here, rounded down to a millionth. The term that needs a
//! logarithm is computed by the caller and handed in; whether it counts is
//! decided here.

use vstd::prelude::*;
use crate::text::{opt_slice, chars_of, has_prefix, lines, same_as, split_lines, starts_with};
use crate::types::{ChangeClassification, ChangeType, EntityReview, ReviewResult, RiskLevel};

verus! {

/// The score 1.0, in millionths.
pub const SCORE_ONE: u64 = 1_000_000;

/// The score from which a review is of medium risk.
pub const MEDIUM_FROM: u64 = 300_000;

/// The score from which a review is of high risk.
pub const HIGH_FROM: u64 = 500_000;

/// The score from which a review is of critical risk.
pub const CRITICAL_FROM: u64 = 700_000;

/// What a changed public entity adds to the score.
pub const PUBLIC_API_WEIGHT: u64 = 120_000;

/// How much review attention a whole result needs.
#[derive(Debug, Clone, Copy, PartialEq, Eq, Structural)]
pub enum ReviewVerdict {
    LikelyApprovable,
    StandardReview,
    RequiresReview,
    RequiresCarefulReview,
}

impl ReviewVerdict {
    /// The name of the verdict in snake case.
    pub open spec fn label_spec(self) -> Seq<char> {
        match self {
            ReviewVerdict::LikelyApprovable => "likely_approvable"@,
            ReviewVerdict::StandardReview => "standard_review"@,
            ReviewVerdict::RequiresReview => "requires_review"@,
            ReviewVerdict::RequiresCarefulReview => "requires_careful_review"@,
        }
    }

    /// The name of the verdict in snake case.
    pub fn label(&self) -> (r: &'static str)
        ensures
            r@ == self.label_spec(),
    {
        match self {
            ReviewVerdict::LikelyApprovable => "likely_approvable",
            ReviewVerdict::StandardReview => "standard_review",
            ReviewVerdict::RequiresReview => "requires_review",
            ReviewVerdict::RequiresCarefulReview => "requires_careful_review",
        }
    }
}

/// `r` is the square root of `x`, rounded down.
pub open spec fn is_floor_sqrt(x: nat, r: nat) -> bool {
    r * r <= x < (r + 1) * (r + 1)
}

/// The square root of `x`, rounded down.
pub open spec fn floor_sqrt_of(x: nat) -> nat {
    choose|r: nat| is_floor_sqrt(x, r)
}

/// A number has one rounded-down square root only.
pub proof fn lemma_floor_sqrt_is_unique(x: nat, a: nat, b: nat)
    requires
        is_floor_sqrt(x, a),
        is_floor_sqrt(x, b),
    ensures
        a == b,
{
    if a < b {
        assert((a + 1) * (a + 1) <= b * b) by (nonlinear_arith)
            requires
                a + 1 <= b,
        ;
    }
    if b < a {
        assert((b + 1) * (b + 1) <= a * a) by (nonlinear_arith)
            requires
                b + 1 <= a,
        ;
    }
}

/// The largest number whose square root is taken: below 2 to the 126th.
pub const SQRT_LIMIT: u128 = 0x4000_0000_0000_0000_0000_0000_0000_0000;

/// The square root of `x`, rounded down.
pub fn floor_sqrt(x: u128) -> (r: u64)
    requires
        x < SQRT_LIMIT,
    ensures
        is_floor_sqrt(x as nat, r as nat),
        r == floor_sqrt_of(x as nat),
{
    let mut lo: u128 = 0;
    let mut hi: u128 = 0x8000_0000_0000_0000;
    assert(hi * hi == 0x4000_0000_0000_0000_0000_0000_0000_0000) by (nonlinear_arith)
        requires
            hi == 0x8000_0000_0000_0000,
    ;
    while hi - lo > 1
        invariant
            lo < hi <= 0x8000_0000_0000_0000,
            lo * lo <= x < hi * hi,
        decreases hi - lo,
    {
        let mid: u128 = lo + (hi - lo) / 2;
        assert(mid * mid < 0x4000_0000_0000_0000_0000_0000_0000_0000) by (nonlinear_arith)
            requires
                mid < 0x8000_0000_0000_0000,
        ;
        if mid * mid <= x {
            lo = mid;
        } else {
            hi = mid;
        }
    }
    proof {
        assert(is_floor_sqrt(x as nat, lo as nat));
        lemma_floor_sqrt_is_unique(x as nat, lo as nat, floor_sqrt_of(x as nat));
    }
    lo as u64
}

/// The square of three tenths in millionths: the blast term is the square
/// root of this many times the blast ratio.
pub const BLAST_SCALE: u128 = 90_000_000_000;

/// What the blast radius adds to the score, in millionths: three tenths of
/// the square root of the share of the graph that a change may reach,
/// rounded down. Nothing without a blast radius or without a graph.
pub open spec fn blast_term_of(blast_radius: nat, total_entities: nat) -> nat {
    if blast_radius > 0 && total_entities > 0 {
        floor_sqrt_of(((blast_radius * BLAST_SCALE) / (total_entities as int)) as nat)
    } else {
        0
    }
}

/// What the blast radius adds to the score, in millionths.
pub fn blast_term(blast_radius: usize, total_entities: usize) -> (t: u64)
    ensures
        t == blast_term_of(blast_radius as nat, total_entities as nat),
{
    if blast_radius > 0 && total_entities > 0 {
        assert(blast_radius as u128 * BLAST_SCALE <= 0xFFFF_FFFF_FFFF_FFFF * 90_000_000_000)
            by (nonlinear_arith)
            requires
                blast_radius <= 0xFFFF_FFFF_FFFF_FFFF,
        ;
        let scaled: u128 = blast_radius as u128 * BLAST_SCALE / (total_entities as u128);
        floor_sqrt(scaled)
    } else {
        0
    }
}

/// What the classification adds to the score, in millionths.
pub open spec fn classification_weight_of(c: ChangeClassification) -> nat {
    match c {
        ChangeClassification::Text => 0,
        ChangeClassification::Syntax => 80_000,
        ChangeClassification::Functional => 220_000,
        ChangeClassification::TextSyntax => 100_000,
        ChangeClassification::TextFunctional => 220_000,
        ChangeClassification::SyntaxFunctional => 250_000,
        ChangeClassification::TextSyntaxFunctional => 280_000,
    }
}

/// What the change type adds to the score, in millionths.
pub open spec fn change_type_weight_of(ct: ChangeType) -> nat {
    match ct {
        ChangeType::Deleted => 120_000,
        ChangeType::Modified => 80_000,
        ChangeType::Renamed => 40_000,
        ChangeType::Moved => 0,
        ChangeType::Added => 20_000,
    }
}

/// The part of the score that needs no graph: classification, change type
/// and visibility.
pub open spec fn baseline(c: ChangeClassification, ct: ChangeType, is_public: bool) -> nat {
    classification_weight_of(c) + change_type_weight_of(ct) + if is_public {
        PUBLIC_API_WEIGHT as nat
    } else {
        0
    }
}

/// The part of the score that comes from the graph: the blast term, and
/// the dependents term where there are dependents. The dependents term is
/// 0.15 times the natural logarithm of one plus the number of dependents,
/// in millionths, as the caller has worked it out.
pub open spec fn graph_part(
    blast_radius: nat,
    dependent_count: nat,
    total_entities: nat,
    dependents_term: nat,
) -> nat {
    blast_term_of(blast_radius, total_entities) + (if dependent_count > 0 {
        dependents_term
    } else {
        0
    })
}

/// The risk score in millionths: baseline plus graph part, a fifth of that
/// for a cosmetic change, and never more than one.
pub open spec fn score(
    c: ChangeClassification,
    ct: ChangeType,
    is_public: bool,
    blast_radius: nat,
    dependent_count: nat,
    structural_change: Option<bool>,
    total_entities: nat,
    dependents_term: nat,
) -> nat {
    let sum = baseline(c, ct, is_public) + graph_part(
        blast_radius,
        dependent_count,
        total_entities,
        dependents_term,
    );
    let discounted = if structural_change == Some(false) {
        sum / 5
    } else {
        sum
    };
    if discounted <= SCORE_ONE {
        discounted
    } else {
        SCORE_ONE as nat
    }
}

/// The baseline of a review.
pub open spec fn baseline_of(review: EntityReview) -> nat {
    baseline(review.classification, review.change_type, review.is_public_api)
}

/// Whether the graph adds anything to the score of a review.
pub open spec fn has_graph_impact(review: EntityReview, total_entities: nat) -> bool {
    (review.blast_radius > 0 && total_entities > 0) || review.dependent_count > 0
}

/// The risk score of a review, in millionths.
pub open spec fn risk_score_of(
    review: EntityReview,
    total_entities: nat,
    dependents_term: nat,
) -> nat {
    score(
        review.classification,
        review.change_type,
        review.is_public_api,
        review.blast_radius as nat,
        review.dependent_count as nat,
        review.structural_change,
        total_entities,
        dependents_term,
    )
}

/// The level that a score falls under.
pub open spec fn level_of(score: nat) -> RiskLevel {
    if score >= CRITICAL_FROM {
        RiskLevel::Critical
    } else if score >= HIGH_FROM {
        RiskLevel::High
    } else if score >= MEDIUM_FROM {
        RiskLevel::Medium
    } else {
        RiskLevel::Low
    }
}

/// What the classification adds to the score, in millionths.
pub fn classification_weight(c: ChangeClassification) -> (w: u64)
    ensures
        w == classification_weight_of(c),
{
    match c {
        ChangeClassification::Text => 0,
        ChangeClassification::Syntax => 80_000,
        ChangeClassification::Functional => 220_000,
        ChangeClassification::TextSyntax => 100_000,
        ChangeClassification::TextFunctional => 220_000,
        ChangeClassification::SyntaxFunctional => 250_000,
        ChangeClassification::TextSyntaxFunctional => 280_000,
    }
}

/// What the change type adds to the score, in millionths.
pub fn change_type_weight(ct: ChangeType) -> (w: u64)
    ensures
        w == change_type_weight_of(ct),
{
    match ct {
        ChangeType::Deleted => 120_000,
        ChangeType::Modified => 80_000,
        ChangeType::Renamed => 40_000,
        ChangeType::Moved => 0,
        ChangeType::Added => 20_000,
    }
}

/// The risk score of a review in a graph of `total_entities` entities, in
/// millionths. The score and the level that the review already holds are
/// not read.
pub fn compute_risk_score(review: &EntityReview, total_entities: usize, dependents_term: u64) -> (score:
    u64)
    ensures
        score == risk_score_of(*review, total_entities as nat, dependents_term as nat),
        score <= SCORE_ONE,
{
    let base: u64 = classification_weight(review.classification) + change_type_weight(
        review.change_type,
    ) + if review.is_public_api {
        PUBLIC_API_WEIGHT
    } else {
        0
    };
    let blast: u64 = blast_term(review.blast_radius, total_entities);
    let dependents: u64 = if review.dependent_count > 0 {
        dependents_term
    } else {
        0
    };
    let sum: u128 = base as u128 + blast as u128 + dependents as u128;
    let cosmetic = match review.structural_change {
        Some(changed) => !changed,
        None => false,
    };
    let discounted: u128 = if cosmetic {
        sum / 5
    } else {
        sum
    };
    if discounted <= SCORE_ONE as u128 {
        discounted as u64
    } else {
        SCORE_ONE
    }
}

/// The level that a score falls under: critical from 0.7, high from 0.5,
/// medium from 0.3, low below that.
pub fn score_to_level(score: u64) -> (level: RiskLevel)
    ensures
        level == level_of(score as nat),
{
    if score >= CRITICAL_FROM {
        RiskLevel::Critical
    } else if score >= HIGH_FROM {
        RiskLevel::High
    } else if score >= MEDIUM_FROM {
        RiskLevel::Medium
    } else {
        RiskLevel::Low
    }
}

/// Every risk score lies between zero and one.
pub proof fn lemma_score_is_bounded(
    review: EntityReview,
    total_entities: nat,
    dependents_term: nat,
)
    ensures
        0 <= risk_score_of(review, total_entities, dependents_term) <= SCORE_ONE,
{
}

/// A higher score never falls under a lower level, and each level holds
/// exactly the scores between its threshold and the next.
pub proof fn lemma_level_is_monotone(a: nat, b: nat)
    requires
        a <= b,
    ensures
        level_of(a).rank_spec() <= level_of(b).rank_spec(),
        level_of(a) == RiskLevel::Low <==> a < MEDIUM_FROM,
        level_of(a) == RiskLevel::Medium <==> MEDIUM_FROM <= a < HIGH_FROM,
        level_of(a) == RiskLevel::High <==> HIGH_FROM <= a < CRITICAL_FROM,
        level_of(a) == RiskLevel::Critical <==> CRITICAL_FROM <= a,
{
}

/// A cosmetic change to which the graph adds nothing scores below the
/// threshold of medium risk, and so is of low risk.
pub proof fn lemma_cosmetic_without_impact_is_low(
    review: EntityReview,
    total_entities: nat,
    dependents_term: nat,
)
    requires
        review.structural_change == Some(false),
        !has_graph_impact(review, total_entities),
    ensures
        risk_score_of(review, total_entities, dependents_term) < MEDIUM_FROM,
        level_of(risk_score_of(review, total_entities, dependents_term)) == RiskLevel::Low,
{
}

/// An upper-case letter, as `char::is_uppercase` tells it.
pub uninterp spec fn is_uppercase(c: char) -> bool;

/// `char::is_uppercase`: whether the character has the Unicode property
/// `Uppercase`. Nothing more is claimed of it than that it depends on the
/// character alone.
#[verifier::external_body]
fn char_is_uppercase(c: char) -> (r: bool)
    ensures
        r == is_uppercase(c),
{
    c.is_uppercase()
}

/// The first line of a text, or the empty text where it has no line.
pub open spec fn first_line(s: Seq<char>) -> Seq<char> {
    if lines(s).len() > 0 {
        lines(s)[0]
    } else {
        Seq::empty()
    }
}

/// A first line that marks its entity as visible outside its unit.
pub open spec fn has_public_marker(line: Seq<char>) -> bool {
    ||| starts_with(line, "pub "@)
    ||| starts_with(line, "pub(crate)"@)
    ||| starts_with(line, "export "@)
    ||| starts_with(line, "module.exports"@)
}

/// The kinds of entity that are public by an upper-case name.
pub open spec fn is_named_kind(entity_type: Seq<char>) -> bool {
    ||| entity_type == "function"@
    ||| entity_type == "method"@
    ||| entity_type == "struct"@
    ||| entity_type == "interface"@
}

/// An entity is public by a marker on the first line of its content, or,
/// for the kinds that go by name, by an upper-case first letter.
pub open spec fn is_public(
    entity_type: Seq<char>,
    entity_name: Seq<char>,
    content: Option<Seq<char>>,
) -> bool {
    (content matches Some(c) && has_public_marker(first_line(c))) || (is_named_kind(entity_type)
        && entity_name.len() > 0 && is_uppercase(entity_name[0]))
}

/// Whether an entity is part of a public interface, by the markers and
/// the naming conventions of the supported languages.
pub fn is_public_api(entity_type: &str, entity_name: &str, content: Option<&str>) -> (r: bool)
    ensures
        r == is_public(entity_type@, entity_name@, opt_slice(content)),
{
    match content {
        Some(c) => {
            let cs = chars_of(c);
            let ls = split_lines(cs.as_slice());
            let marked = if ls.len() > 0 {
                let first = ls[0].as_slice();
                assert(first@ == first_line(c@)) by {
                    assert(crate::text::rows(ls@)[0] == ls@[0]@);
                }
                has_prefix(first, "pub ") || has_prefix(first, "pub(crate)") || has_prefix(
                    first,
                    "export ",
                ) || has_prefix(first, "module.exports")
            } else {
                let empty: Vec<char> = Vec::new();
                assert(empty@ == first_line(c@));
                let first = empty.as_slice();
                has_prefix(first, "pub ") || has_prefix(first, "pub(crate)") || has_prefix(
                    first,
                    "export ",
                ) || has_prefix(first, "module.exports")
            };
            if marked {
                return true;
            }
        },
        None => {},
    }
    let kind = chars_of(entity_type);
    let k = kind.as_slice();
    if same_as(k, "function") || same_as(k, "method") || same_as(k, "struct") || same_as(
        k,
        "interface",
    ) {
        let name = chars_of(entity_name);
        if name.len() > 0 {
            if char_is_uppercase(name[0]) {
                return true;
            }
        }
    }
    false
}

/// All reviews of a result are cosmetic.
pub open spec fn all_cosmetic(reviews: Seq<EntityReview>) -> bool {
    forall|i: int| 0 <= i < reviews.len()
        ==> (#[trigger] reviews[i]).structural_change == Some(false)
}

/// The verdict that a result suggests: careful review where the counts hold
/// a critical review, review where they hold a high one, likely approvable
/// where there are reviews and all of them are cosmetic, and standard
/// review otherwise.
pub open spec fn verdict_of(result: ReviewResult) -> ReviewVerdict {
    if result.stats.by_risk.critical > 0 {
        ReviewVerdict::RequiresCarefulReview
    } else if result.stats.by_risk.high > 0 {
        ReviewVerdict::RequiresReview
    } else if result.entity_reviews@.len() > 0 && all_cosmetic(result.entity_reviews@) {
        ReviewVerdict::LikelyApprovable
    } else {
        ReviewVerdict::StandardReview
    }
}

/// The verdict that a result suggests.
pub fn suggest_verdict(result: &ReviewResult) -> (v: ReviewVerdict)
    ensures
        v == verdict_of(*result),
{
    if result.stats.by_risk.critical > 0 {
        return ReviewVerdict::RequiresCarefulReview;
    }
    if result.stats.by_risk.high > 0 {
        return ReviewVerdict::RequiresReview;
    }
    let n: usize = result.entity_reviews.len();
    if n == 0 {
        return ReviewVerdict::StandardReview;
    }
    let mut i: usize = 0;
    while i < n
        invariant
            i <= n,
            n == result.entity_reviews@.len(),
            result.stats.by_risk.critical == 0,
            result.stats.by_risk.high == 0,
            forall|j: int| 0 <= j < i ==> (#[trigger] result.entity_reviews@[j]).structural_change
                == Some(false),
        decreases n - i,
    {
        let cosmetic = match result.entity_reviews[i].structural_change {
            Some(changed) => !changed,
            None => false,
        };
        if !cosmetic {
            assert(!all_cosmetic(result.entity_reviews@)) by {
                assert(result.entity_reviews@[i as int].structural_change != Some(false));
            }
            return ReviewVerdict::StandardReview;
        }
        i += 1;
    }
    ReviewVerdict::LikelyApprovable
}

} // verus!
