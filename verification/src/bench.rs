//! What a benchmark over the history of a repository counts for each
//! commit.

use vstd::prelude::*;
use crate::text::{chars_of, count_distinct, index_of, position_of, rows, slice_of, text_of};
use crate::types::{EntityReview, ReviewResult, RiskLevel};
use crate::analyze::count_level;

verus! {

/// How many reviews fall under each risk level.
#[derive(Debug, Clone, Copy, PartialEq, Eq, Structural)]
pub struct RiskDistribution {
    pub critical: usize,
    pub high: usize,
    pub medium: usize,
    pub low: usize,
}

/// The counts of the review of one commit.
#[derive(Debug, Clone)]
pub struct CommitBenchmark {
    pub sha: String,
    pub message: String,
    pub entity_count: usize,
    pub file_count: usize,
    pub group_count: usize,
    pub cosmetic_count: usize,
    pub high_critical_count: usize,
    pub max_blast_radius: usize,
    pub cross_file_impacts: usize,
}

/// What a benchmark counts among reviews.
#[derive(Debug, Clone, Copy, PartialEq, Eq, Structural)]
pub enum Tally {
    /// Changes to comments and layout only.
    Cosmetic,
    /// Reviews of high or critical risk.
    HighOrCritical,
    /// Entities that others depend on.
    WithDependents,
}

/// Whether a review counts under a tally.
pub open spec fn counts_under(review: EntityReview, tally: Tally) -> bool {
    match tally {
        Tally::Cosmetic => review.structural_change == Some(false),
        Tally::HighOrCritical => review.risk_level == RiskLevel::High || review.risk_level
            == RiskLevel::Critical,
        Tally::WithDependents => review.dependent_count > 0,
    }
}

/// How many of the first `n` reviews count under a tally.
pub open spec fn tally_of(reviews: Seq<EntityReview>, tally: Tally, n: int) -> nat
    decreases n,
{
    if n <= 0 {
        0
    } else {
        tally_of(reviews, tally, n - 1) + if counts_under(reviews[n - 1], tally) {
            1nat
        } else {
            0nat
        }
    }
}

/// The largest blast radius among the first `n` reviews, and 0 for none.
pub open spec fn largest_blast(reviews: Seq<EntityReview>, n: int) -> nat
    decreases n,
{
    if n <= 0 {
        0
    } else {
        let before = largest_blast(reviews, n - 1);
        if reviews[n - 1].blast_radius > before {
            reviews[n - 1].blast_radius as nat
        } else {
            before
        }
    }
}

/// The file paths of the reviews, in order.
pub open spec fn files_of(reviews: Seq<EntityReview>) -> Seq<Seq<char>> {
    reviews.map_values(|r: EntityReview| r.file_path@)
}

/// How many of the reviews count under a tally.
fn count_under(reviews: &Vec<EntityReview>, kind: Tally) -> (n: usize)
    ensures
        n == tally_of(reviews@, kind, reviews@.len() as int),
{
    let mut n: usize = 0;
    let mut i: usize = 0;
    while i < reviews.len()
        invariant
            i <= reviews@.len(),
            n == tally_of(reviews@, kind, i as int),
            n <= i,
        decreases reviews@.len() - i,
    {
        let r = &reviews[i];
        let counts = match kind {
            Tally::Cosmetic => match r.structural_change {
                Some(changed) => !changed,
                None => false,
            },
            Tally::HighOrCritical => match r.risk_level {
                RiskLevel::High => true,
                RiskLevel::Critical => true,
                _ => false,
            },
            Tally::WithDependents => r.dependent_count > 0,
        };
        if counts {
            n += 1;
        }
        i += 1;
    }
    n
}

/// The counts of the review of one commit; none for a review without
/// reviews.
pub fn benchmark_commit(sha: &str, message: &str, result: &ReviewResult) -> (r: Option<
    CommitBenchmark,
>)
    ensures
        r is Some <==> result.entity_reviews@.len() > 0,
        r matches Some(b) ==> {
            let reviews = result.entity_reviews@;
            let n = reviews.len() as int;
            &&& b.sha@ == sha@
            &&& b.message@ == message@
            &&& b.entity_count == n
            &&& b.file_count == files_of(reviews).to_set().len()
            &&& b.group_count == result.groups@.len()
            &&& b.cosmetic_count == tally_of(reviews, Tally::Cosmetic, n)
            &&& b.high_critical_count == tally_of(reviews, Tally::HighOrCritical, n)
            &&& b.max_blast_radius == largest_blast(reviews, n)
            &&& b.cross_file_impacts == tally_of(reviews, Tally::WithDependents, n)
        },
{
    let reviews = &result.entity_reviews;
    if reviews.len() == 0 {
        return None;
    }
    let mut files: Vec<Vec<char>> = Vec::new();
    let mut largest: usize = 0;
    let mut i: usize = 0;
    while i < reviews.len()
        invariant
            i <= reviews@.len(),
            files@.len() == i,
            forall|k: int| 0 <= k < i ==> (#[trigger] files@[k])@ == reviews@[k].file_path@,
            largest == largest_blast(reviews@, i as int),
        decreases reviews@.len() - i,
    {
        files.push(chars_of(reviews[i].file_path.as_str()));
        if reviews[i].blast_radius > largest {
            largest = reviews[i].blast_radius;
        }
        i += 1;
    }
    assert(rows(files@) =~= files_of(reviews@));
    Some(
        CommitBenchmark {
            sha: text_of(chars_of(sha).as_slice()),
            message: text_of(chars_of(message).as_slice()),
            entity_count: reviews.len(),
            file_count: count_distinct(&files),
            group_count: result.groups.len(),
            cosmetic_count: count_under(reviews, Tally::Cosmetic),
            high_critical_count: count_under(reviews, Tally::HighOrCritical),
            max_blast_radius: largest,
            cross_file_impacts: count_under(reviews, Tally::WithDependents),
        },
    )
}

/// How many reviews of a result fall under each risk level.
pub fn risk_distribution(result: &ReviewResult) -> (d: RiskDistribution)
    ensures
        d.critical == count_level(
            result.entity_reviews@,
            RiskLevel::Critical,
            result.entity_reviews@.len() as int,
        ),
        d.high == count_level(
            result.entity_reviews@,
            RiskLevel::High,
            result.entity_reviews@.len() as int,
        ),
        d.medium == count_level(
            result.entity_reviews@,
            RiskLevel::Medium,
            result.entity_reviews@.len() as int,
        ),
        d.low == count_level(
            result.entity_reviews@,
            RiskLevel::Low,
            result.entity_reviews@.len() as int,
        ),
{
    let stats = crate::analyze::compute_stats(result.entity_reviews.as_slice());
    RiskDistribution {
        critical: stats.by_risk.critical,
        high: stats.by_risk.high,
        medium: stats.by_risk.medium,
        low: stats.by_risk.low,
    }
}

/// Hash and subject of a line of the log: what stands before and after
/// its first blank. A line without a blank is none.
pub fn parse_commit_line(line: &str) -> (r: Option<(String, String)>)
    ensures
        r is Some <==> index_of(line@, ' ', 0) < line@.len(),
        r matches Some(parts) ==> parts.0@ == line@.subrange(0, index_of(line@, ' ', 0))
            && parts.1@ == line@.subrange(index_of(line@, ' ', 0) + 1, line@.len() as int),
{
    let chars = chars_of(line);
    let at = position_of(chars.as_slice(), ' ');
    if at < chars.len() {
        let sha = slice_of(chars.as_slice(), 0, at);
        let subject = slice_of(chars.as_slice(), at + 1, chars.len());
        Some((text_of(sha.as_slice()), text_of(subject.as_slice())))
    } else {
        None
    }
}

} // verus!
