//! The result aggregator: from the changes of a diff and what the graph
//! says of them to the ranked reviews, their groups and their counts.

use vstd::prelude::*;
use sem_core::parser::graph::EntityGraph;
use crate::classify::{classify, classify_change, content};
use crate::graph::{
    are_records, graph_dependencies, graph_dependents, graph_entities, graph_facts, impact_of,
    linked, GraphFacts, Neighbor, IMPACT_CAP,
};
use crate::order::{is_ranking, lists_at, rank_order, ranks, SortKey};
use crate::risk::{
    compute_risk_score, is_public, is_public_api, level_of, score, score_to_level,
};
use crate::text::{copy_opt, opt_text, text_pairs, 
    chars_of, ends_with, has_suffix, lines, lowercase, rows, same, split_lines, text_of, texts,
    to_lowercase,
};
use crate::types::{
    ChangeClassification, ChangeGroup, ChangeType, ChangeTypeBreakdown, ClassificationBreakdown,
    EntityReview, ReviewResult, ReviewStats, RiskBreakdown, RiskLevel, SemanticChange, Timing,
};
use crate::untangle::{
    groups_match, is_grouping, review_files, review_ids, review_names, untangle,
};

verus! {

/// The analysis could not be made.
#[derive(Debug)]
pub enum AnalyzeError {
    /// The scope could not be resolved in the repository.
    Git(String),
}

impl AnalyzeError {
    /// The text that stands for the error.
    pub open spec fn message_spec(self) -> Seq<char> {
        match self {
            AnalyzeError::Git(m) => "git error: "@ + m@,
        }
    }

    /// The text that stands for the error.
    pub fn message(&self) -> (r: String)
        ensures
            r@ == self.message_spec(),
    {
        match self {
            AnalyzeError::Git(m) => {
                let mut out: Vec<char> = Vec::new();
                crate::text::push_str(&mut out, "git error: ");
                crate::text::push_str(&mut out, m.as_str());
                text_of(out.as_slice())
            },
        }
    }
}

/// How many of the first `n` reviews are of the level.
pub open spec fn count_level(reviews: Seq<EntityReview>, level: RiskLevel, n: int) -> nat
    decreases n,
{
    if n <= 0 {
        0
    } else {
        count_level(reviews, level, n - 1) + if reviews[n - 1].risk_level == level {
            1nat
        } else {
            0nat
        }
    }
}

/// How many of the first `n` reviews are of the change type.
pub open spec fn count_change(reviews: Seq<EntityReview>, ct: ChangeType, n: int) -> nat
    decreases n,
{
    if n <= 0 {
        0
    } else {
        count_change(reviews, ct, n - 1) + if reviews[n - 1].change_type == ct {
            1nat
        } else {
            0nat
        }
    }
}

/// How many of the first `n` reviews are of the classification.
pub open spec fn count_class(reviews: Seq<EntityReview>, c: ChangeClassification, n: int) -> nat
    decreases n,
{
    if n <= 0 {
        0
    } else {
        count_class(reviews, c, n - 1) + if reviews[n - 1].classification == c {
            1nat
        } else {
            0nat
        }
    }
}

/// How many of the first `n` reviews touch more than one dimension.
pub open spec fn count_mixed(reviews: Seq<EntityReview>, n: int) -> nat {
    count_class(reviews, ChangeClassification::TextSyntax, n) + count_class(
        reviews,
        ChangeClassification::TextFunctional,
        n,
    ) + count_class(reviews, ChangeClassification::SyntaxFunctional, n) + count_class(
        reviews,
        ChangeClassification::TextSyntaxFunctional,
        n,
    )
}

/// `stats` counts the first `n` of `reviews`.
pub open spec fn counts_first(stats: ReviewStats, reviews: Seq<EntityReview>, n: int) -> bool {
    &&& stats.total_entities == n
    &&& stats.by_risk.critical == count_level(reviews, RiskLevel::Critical, n)
    &&& stats.by_risk.high == count_level(reviews, RiskLevel::High, n)
    &&& stats.by_risk.medium == count_level(reviews, RiskLevel::Medium, n)
    &&& stats.by_risk.low == count_level(reviews, RiskLevel::Low, n)
    &&& stats.by_classification.text == count_class(reviews, ChangeClassification::Text, n)
    &&& stats.by_classification.syntax == count_class(reviews, ChangeClassification::Syntax, n)
    &&& stats.by_classification.functional == count_class(
        reviews,
        ChangeClassification::Functional,
        n,
    )
    &&& stats.by_classification.mixed == count_mixed(reviews, n)
    &&& stats.by_change_type.added == count_change(reviews, ChangeType::Added, n)
    &&& stats.by_change_type.modified == count_change(reviews, ChangeType::Modified, n)
    &&& stats.by_change_type.deleted == count_change(reviews, ChangeType::Deleted, n)
    &&& stats.by_change_type.moved == count_change(reviews, ChangeType::Moved, n)
    &&& stats.by_change_type.renamed == count_change(reviews, ChangeType::Renamed, n)
}

/// `stats` counts `reviews`.
pub open spec fn is_stats_of(stats: ReviewStats, reviews: Seq<EntityReview>) -> bool {
    counts_first(stats, reviews, reviews.len() as int)
}

/// Each review is counted once under its level, once under its
/// classification and once under its change type.
pub proof fn lemma_counts_add_up(reviews: Seq<EntityReview>, n: int)
    requires
        0 <= n <= reviews.len(),
    ensures
        count_level(reviews, RiskLevel::Critical, n) + count_level(reviews, RiskLevel::High, n)
            + count_level(reviews, RiskLevel::Medium, n) + count_level(reviews, RiskLevel::Low, n)
            == n,
        count_class(reviews, ChangeClassification::Text, n) + count_class(
            reviews,
            ChangeClassification::Syntax,
            n,
        ) + count_class(reviews, ChangeClassification::Functional, n) + count_mixed(reviews, n)
            == n,
        count_change(reviews, ChangeType::Added, n) + count_change(reviews, ChangeType::Modified, n)
            + count_change(reviews, ChangeType::Deleted, n) + count_change(
            reviews,
            ChangeType::Moved,
            n,
        ) + count_change(reviews, ChangeType::Renamed, n) == n,
    decreases n,
{
    if n > 0 {
        lemma_counts_add_up(reviews, n - 1);
    }
}

/// `counts` with one more under `level`.
fn count_risk(counts: RiskBreakdown, level: RiskLevel) -> (r: RiskBreakdown)
    requires
        counts.critical + counts.high + counts.medium + counts.low < usize::MAX,
    ensures
        r.critical == counts.critical + if level == RiskLevel::Critical { 1int } else { 0int },
        r.high == counts.high + if level == RiskLevel::High { 1int } else { 0int },
        r.medium == counts.medium + if level == RiskLevel::Medium { 1int } else { 0int },
        r.low == counts.low + if level == RiskLevel::Low { 1int } else { 0int },
{
    let mut r = counts;
    match level {
        RiskLevel::Critical => {
            r.critical = r.critical + 1;
        },
        RiskLevel::High => {
            r.high = r.high + 1;
        },
        RiskLevel::Medium => {
            r.medium = r.medium + 1;
        },
        RiskLevel::Low => {
            r.low = r.low + 1;
        },
    }
    r
}

/// `counts` with one more under the classification; every variant of more
/// than one dimension counts as mixed.
fn count_classification(counts: ClassificationBreakdown, c: ChangeClassification) -> (r:
    ClassificationBreakdown)
    requires
        counts.text + counts.syntax + counts.functional + counts.mixed < usize::MAX,
    ensures
        r.text == counts.text + if c == ChangeClassification::Text { 1int } else { 0int },
        r.syntax == counts.syntax + if c == ChangeClassification::Syntax { 1int } else { 0int },
        r.functional == counts.functional + if c == ChangeClassification::Functional {
            1int
        } else {
            0int
        },
        r.mixed == counts.mixed + if c != ChangeClassification::Text && c
            != ChangeClassification::Syntax && c != ChangeClassification::Functional {
            1int
        } else {
            0int
        },
{
    let mut r = counts;
    match c {
        ChangeClassification::Text => {
            r.text = r.text + 1;
        },
        ChangeClassification::Syntax => {
            r.syntax = r.syntax + 1;
        },
        ChangeClassification::Functional => {
            r.functional = r.functional + 1;
        },
        _ => {
            r.mixed = r.mixed + 1;
        },
    }
    r
}

/// `counts` with one more under the change type.
fn count_change_type(counts: ChangeTypeBreakdown, ct: ChangeType) -> (r: ChangeTypeBreakdown)
    requires
        counts.added + counts.modified + counts.deleted + counts.moved + counts.renamed
            < usize::MAX,
    ensures
        r.added == counts.added + if ct == ChangeType::Added { 1int } else { 0int },
        r.modified == counts.modified + if ct == ChangeType::Modified { 1int } else { 0int },
        r.deleted == counts.deleted + if ct == ChangeType::Deleted { 1int } else { 0int },
        r.moved == counts.moved + if ct == ChangeType::Moved { 1int } else { 0int },
        r.renamed == counts.renamed + if ct == ChangeType::Renamed { 1int } else { 0int },
{
    let mut r = counts;
    match ct {
        ChangeType::Added => {
            r.added = r.added + 1;
        },
        ChangeType::Modified => {
            r.modified = r.modified + 1;
        },
        ChangeType::Deleted => {
            r.deleted = r.deleted + 1;
        },
        ChangeType::Moved => {
            r.moved = r.moved + 1;
        },
        ChangeType::Renamed => {
            r.renamed = r.renamed + 1;
        },
    }
    r
}

/// The counts of a list of reviews. The counts under the four risk levels
/// add up to the number of reviews, which is the total.
pub fn compute_stats(reviews: &[EntityReview]) -> (stats: ReviewStats)
    ensures
        is_stats_of(stats, reviews@),
        stats.by_risk.critical + stats.by_risk.high + stats.by_risk.medium + stats.by_risk.low
            == reviews@.len(),
        stats.total_entities == reviews@.len(),
{
    let n: usize = reviews.len();
    let mut stats = ReviewStats {
        total_entities: 0,
        by_risk: RiskBreakdown { critical: 0, high: 0, medium: 0, low: 0 },
        by_classification: ClassificationBreakdown { text: 0, syntax: 0, functional: 0, mixed: 0 },
        by_change_type: ChangeTypeBreakdown {
            added: 0,
            modified: 0,
            deleted: 0,
            moved: 0,
            renamed: 0,
        },
    };
    let mut i: usize = 0;
    while i < n
        invariant
            i <= n,
            n == reviews@.len(),
            counts_first(stats, reviews@, i as int),
        decreases n - i,
    {
        proof {
            lemma_counts_add_up(reviews@, i as int);
        }
        let r = &reviews[i];
        let by_risk = count_risk(stats.by_risk, r.risk_level);
        let by_class = count_classification(stats.by_classification, r.classification);
        let by_change = count_change_type(stats.by_change_type, r.change_type);
        stats =
        ReviewStats {
            total_entities: i + 1,
            by_risk,
            by_classification: by_class,
            by_change_type: by_change,
        };
        i += 1;
    }
    proof {
        lemma_counts_add_up(reviews@, n as int);
    }
    stats
}

/// The result of a review without changes: no reviews, no groups, all
/// counts and times zero.
pub fn empty_result() -> (result: ReviewResult)
    ensures
        result.entity_reviews@.len() == 0,
        result.groups@.len() == 0,
        result.changes@.len() == 0,
        is_stats_of(result.stats, result.entity_reviews@),
        result.stats.total_entities == 0,
        result.timing == (Timing {
            diff_ms: 0,
            list_files_ms: 0,
            file_count: 0,
            graph_build_ms: 0,
            graph_entity_count: 0,
            scoring_ms: 0,
            total_ms: 0,
        }),
{
    ReviewResult {
        entity_reviews: Vec::new(),
        groups: Vec::new(),
        stats: ReviewStats {
            total_entities: 0,
            by_risk: RiskBreakdown { critical: 0, high: 0, medium: 0, low: 0 },
            by_classification: ClassificationBreakdown {
                text: 0,
                syntax: 0,
                functional: 0,
                mixed: 0,
            },
            by_change_type: ChangeTypeBreakdown {
                added: 0,
                modified: 0,
                deleted: 0,
                moved: 0,
                renamed: 0,
            },
        },
        timing: Timing {
            diff_ms: 0,
            list_files_ms: 0,
            file_count: 0,
            graph_build_ms: 0,
            graph_entity_count: 0,
            scoring_ms: 0,
            total_ms: 0,
        },
        changes: Vec::new(),
    }
}

/// A path is a source file by its extension, whatever its case.
pub open spec fn is_source_path(path: Seq<char>) -> bool {
    let p = lowercase(path);
    ||| ends_with(p, ".rs"@)
    ||| ends_with(p, ".ts"@)
    ||| ends_with(p, ".tsx"@)
    ||| ends_with(p, ".js"@)
    ||| ends_with(p, ".jsx"@)
    ||| ends_with(p, ".py"@)
    ||| ends_with(p, ".go"@)
    ||| ends_with(p, ".java"@)
    ||| ends_with(p, ".c"@)
    ||| ends_with(p, ".cpp"@)
    ||| ends_with(p, ".rb"@)
    ||| ends_with(p, ".cs"@)
    ||| ends_with(p, ".php"@)
}

/// The source paths among the first `n` of `paths`, in order.
pub open spec fn source_paths(paths: Seq<Seq<char>>, n: int) -> Seq<Seq<char>>
    decreases n,
{
    if n <= 0 {
        Seq::empty()
    } else if is_source_path(paths[n - 1]) {
        source_paths(paths, n - 1).push(paths[n - 1])
    } else {
        source_paths(paths, n - 1)
    }
}

/// Whether the path names a file of one of the supported languages.
pub fn is_source_file(path: &str) -> (r: bool)
    ensures
        r == is_source_path(path@),
{
    let lower = to_lowercase(path);
    let p = chars_of(lower.as_str());
    let p = p.as_slice();
    has_suffix(p, ".rs") || has_suffix(p, ".ts") || has_suffix(p, ".tsx") || has_suffix(p, ".js")
        || has_suffix(p, ".jsx") || has_suffix(p, ".py") || has_suffix(p, ".go") || has_suffix(
        p,
        ".java",
    ) || has_suffix(p, ".c") || has_suffix(p, ".cpp") || has_suffix(p, ".rb") || has_suffix(
        p,
        ".cs",
    ) || has_suffix(p, ".php")
}

/// The source files of a listing that names one path on each line; paths
/// with other extensions are passed over.
pub fn list_source_files(listing: &str) -> (files: Vec<String>)
    ensures
        texts(files@) == source_paths(lines(listing@), lines(listing@).len() as int),
{
    let text = chars_of(listing);
    let ls = split_lines(text.as_slice());
    let ghost all = lines(listing@);
    let mut files: Vec<String> = Vec::new();
    let mut i: usize = 0;
    while i < ls.len()
        invariant
            i <= ls@.len(),
            rows(ls@) == all,
            texts(files@) == source_paths(all, i as int),
        decreases ls@.len() - i,
    {
        let path = text_of(ls[i].as_slice());
        assert(path@ == all[i as int]) by {
            assert(rows(ls@)[i as int] == ls@[i as int]@);
        }
        if is_source_file(path.as_str()) {
            let ghost before = texts(files@);
            files.push(path);
            assert(texts(files@) =~= before.push(path@));
        }
        i += 1;
    }
    files
}

/// A change with what the graph says of its entity and the dependents term
/// of its score.
#[derive(Debug, Clone)]
pub struct ChangeInput {
    pub change: SemanticChange,
    pub facts: GraphFacts,
    /// 0.15 times the natural logarithm of one plus the number of
    /// dependents, in millionths.
    pub dependents_term: u64,
}

/// Name and file of each neighbour.
pub open spec fn neighbor_names(v: Seq<Neighbor>) -> Seq<(Seq<char>, Seq<char>)> {
    v.map_values(|n: Neighbor| (n.name@, n.file_path@))
}

/// The classification of the change of an input.
pub open spec fn input_class(input: ChangeInput) -> ChangeClassification {
    classify(
        content(input.change.before_content),
        content(input.change.after_content),
        input.change.structural_change,
    )
}

/// Whether the entity of an input is public.
pub open spec fn input_is_public(input: ChangeInput) -> bool {
    is_public(
        input.change.entity_type@,
        input.change.entity_name@,
        opt_text(input.change.after_content),
    )
}

/// The risk score of an input in a graph of `total_entities` entities.
pub open spec fn input_score(input: ChangeInput, total_entities: nat) -> nat {
    score(
        input_class(input),
        input.change.change_type,
        input_is_public(input),
        input.facts.blast_radius as nat,
        input.facts.dependents@.len(),
        input.change.structural_change,
        total_entities,
        input.dependents_term as nat,
    )
}

/// What ranks each input: its score and its entity id.
pub open spec fn input_ranks(inputs: Seq<ChangeInput>, total_entities: nat) -> Seq<
    (nat, Seq<char>),
> {
    inputs.map_values(|c: ChangeInput| (input_score(c, total_entities), c.change.entity_id@))
}

/// `review` is the review of `input`, but for its group.
pub open spec fn is_review_of(review: EntityReview, input: ChangeInput, total_entities: nat) -> bool {
    &&& review.entity_id@ == input.change.entity_id@
    &&& review.entity_name@ == input.change.entity_name@
    &&& review.entity_type@ == input.change.entity_type@
    &&& review.file_path@ == input.change.file_path@
    &&& review.change_type == input.change.change_type
    &&& review.classification == input_class(input)
    &&& review.risk_score == input_score(input, total_entities)
    &&& review.risk_level == level_of(review.risk_score as nat)
    &&& review.blast_radius == input.facts.blast_radius
    &&& review.dependent_count == input.facts.dependents@.len()
    &&& review.dependency_count == input.facts.dependencies@.len()
    &&& review.is_public_api == input_is_public(input)
    &&& review.structural_change == input.change.structural_change
    &&& review.start_line == input.facts.start_line
    &&& review.end_line == input.facts.end_line
    &&& opt_text(review.before_content) == opt_text(input.change.before_content)
    &&& opt_text(review.after_content) == opt_text(input.change.after_content)
    &&& text_pairs(review.dependent_names@) == neighbor_names(input.facts.dependents@)
    &&& text_pairs(review.dependency_names@) == neighbor_names(input.facts.dependencies@)
}

/// `facts` is what `graph` says of the entity `id`.
pub open spec fn are_facts_of(facts: GraphFacts, graph: EntityGraph, id: Seq<char>) -> bool {
    &&& are_records(graph_entities(graph), linked(graph_dependents(graph), id), facts.dependents@)
    &&& are_records(
        graph_entities(graph),
        linked(graph_dependencies(graph), id),
        facts.dependencies@,
    )
    &&& facts.blast_radius == impact_of(graph, id, IMPACT_CAP as nat)
    &&& graph_entities(graph).contains_key(id) ==> facts.start_line == graph_entities(
        graph,
    )[id].start_line && facts.end_line == graph_entities(graph)[id].end_line
    &&& !graph_entities(graph).contains_key(id) ==> facts.start_line == 0 && facts.end_line == 0
}

/// Each change with what the graph says of its entity. The dependents term
/// is left at zero for the caller to fill in.
pub fn gather(graph: &EntityGraph, changes: Vec<SemanticChange>) -> (inputs: Vec<ChangeInput>)
    ensures
        inputs@.len() == changes@.len(),
        forall|i: int|
            0 <= i < inputs@.len() ==> {
                &&& (#[trigger] inputs@[i]).change == changes@[i]
                &&& are_facts_of(inputs@[i].facts, *graph, changes@[i].entity_id@)
                &&& inputs@[i].dependents_term == 0
            },
{
    let mut inputs: Vec<ChangeInput> = Vec::new();
    let ghost all = changes@;
    for change in it: changes
        invariant
            it.seq() == all,
            inputs@.len() == it.index(),
            forall|i: int|
                0 <= i < inputs@.len() ==> {
                    &&& (#[trigger] inputs@[i]).change == all[i]
                    &&& are_facts_of(inputs@[i].facts, *graph, all[i].entity_id@)
                    &&& inputs@[i].dependents_term == 0
                },
    {
        let facts = graph_facts(graph, change.entity_id.as_str());
        inputs.push(
            ChangeInput { change, facts, dependents_term: 0 },
        );
    }
    inputs
}

/// Name and file of each neighbour.
fn names_of(neighbors: &Vec<Neighbor>) -> (names: Vec<(String, String)>)
    ensures
        text_pairs(names@) == neighbor_names(neighbors@),
{
    let mut names: Vec<(String, String)> = Vec::new();
    let mut i: usize = 0;
    while i < neighbors.len()
        invariant
            i <= neighbors@.len(),
            names@.len() == i,
            forall|j: int|
                0 <= j < i ==> (#[trigger] names@[j]).0@ == neighbors@[j].name@ && names@[j].1@
                    == neighbors@[j].file_path@,
        decreases neighbors@.len() - i,
    {
        names.push((neighbors[i].name.clone(), neighbors[i].file_path.clone()));
        i += 1;
    }
    assert(text_pairs(names@) =~= neighbor_names(neighbors@));
    names
}

/// The review of one change, in group 0.
pub fn review_entity(input: &ChangeInput, total_entities: usize) -> (review: EntityReview)
    ensures
        is_review_of(review, *input, total_entities as nat),
        review.group_id == 0,
        review.risk_score <= crate::risk::SCORE_ONE,
{
    let change = &input.change;
    let facts = &input.facts;
    let classification = classify_change(change);
    let after: Option<&str> = match &change.after_content {
        Some(s) => Some(s.as_str()),
        None => None,
    };
    let public = is_public_api(change.entity_type.as_str(), change.entity_name.as_str(), after);
    let mut review = EntityReview {
        entity_id: change.entity_id.clone(),
        entity_name: change.entity_name.clone(),
        entity_type: change.entity_type.clone(),
        file_path: change.file_path.clone(),
        change_type: change.change_type,
        classification,
        risk_score: 0,
        risk_level: RiskLevel::Low,
        blast_radius: facts.blast_radius,
        dependent_count: facts.dependents.len(),
        dependency_count: facts.dependencies.len(),
        is_public_api: public,
        structural_change: change.structural_change,
        group_id: 0,
        start_line: facts.start_line,
        end_line: facts.end_line,
        before_content: copy_opt(&change.before_content),
        after_content: copy_opt(&change.after_content),
        dependent_names: names_of(&facts.dependents),
        dependency_names: names_of(&facts.dependencies),
    };
    let score = compute_risk_score(&review, total_entities, input.dependents_term);
    review.risk_score = score;
    review.risk_level = score_to_level(score);
    review
}

/// The ids of the first `n` neighbours that are ids of changes, each
/// paired with `source`.
pub open spec fn links_from(
    source: Seq<char>,
    neighbors: Seq<Neighbor>,
    changed: Seq<Seq<char>>,
    n: int,
) -> Seq<(Seq<char>, Seq<char>)>
    decreases n,
{
    if n <= 0 {
        Seq::empty()
    } else if changed.contains(neighbors[n - 1].id@) {
        links_from(source, neighbors, changed, n - 1).push((source, neighbors[n - 1].id@))
    } else {
        links_from(source, neighbors, changed, n - 1)
    }
}

/// The entity ids of the inputs, in order.
pub open spec fn input_ids(inputs: Seq<ChangeInput>) -> Seq<Seq<char>> {
    inputs.map_values(|c: ChangeInput| c.change.entity_id@)
}

/// The dependency edges among the first `m` inputs: for each change its
/// changed dependencies, then its changed dependents.
pub open spec fn planned_edges(inputs: Seq<ChangeInput>, m: int) -> Seq<(Seq<char>, Seq<char>)>
    decreases m,
{
    if m <= 0 {
        Seq::empty()
    } else {
        let c = inputs[m - 1];
        planned_edges(inputs, m - 1) + links_from(
            c.change.entity_id@,
            c.facts.dependencies@,
            input_ids(inputs),
            c.facts.dependencies@.len() as int,
        ) + links_from(
            c.change.entity_id@,
            c.facts.dependents@,
            input_ids(inputs),
            c.facts.dependents@.len() as int,
        )
    }
}

/// Whether `id` is one of `ids`.
fn is_one_of(ids: &Vec<Vec<char>>, id: &[char]) -> (r: bool)
    ensures
        r == rows(ids@).contains(id@),
{
    let mut i: usize = 0;
    while i < ids.len()
        invariant
            i <= ids@.len(),
            forall|j: int| 0 <= j < i ==> rows(ids@)[j] != id@,
        decreases ids@.len() - i,
    {
        if same(ids[i].as_slice(), id) {
            assert(rows(ids@)[i as int] == id@);
            return true;
        }
        i += 1;
    }
    false
}

/// Appends to `edges` an edge from `source` to each changed neighbour.
fn push_links(
    edges: &mut Vec<(String, String)>,
    source: &String,
    neighbors: &Vec<Neighbor>,
    ids: &Vec<Vec<char>>,
)
    ensures
        text_pairs(final(edges)@) == text_pairs(old(edges)@) + links_from(
            source@,
            neighbors@,
            rows(ids@),
            neighbors@.len() as int,
        ),
{
    let ghost start = text_pairs(edges@);
    let mut k: usize = 0;
    while k < neighbors.len()
        invariant
            k <= neighbors@.len(),
            text_pairs(edges@) == start + links_from(source@, neighbors@, rows(ids@), k as int),
        decreases neighbors@.len() - k,
    {
        let id = chars_of(neighbors[k].id.as_str());
        if is_one_of(ids, id.as_slice()) {
            let ghost before = text_pairs(edges@);
            edges.push((source.clone(), neighbors[k].id.clone()));
            assert(text_pairs(edges@) =~= before.push((source@, neighbors@[k as int].id@)));
            assert(text_pairs(edges@) =~= start + links_from(
                source@,
                neighbors@,
                rows(ids@),
                k + 1,
            ));
        }
        k += 1;
    }
}

/// The dependency edges between changed entities.
pub fn changed_edges(inputs: &Vec<ChangeInput>) -> (edges: Vec<(String, String)>)
    ensures
        text_pairs(edges@) == planned_edges(inputs@, inputs@.len() as int),
{
    let n: usize = inputs.len();
    let mut ids: Vec<Vec<char>> = Vec::new();
    let mut i: usize = 0;
    while i < n
        invariant
            i <= n,
            n == inputs@.len(),
            ids@.len() == i,
            forall|j: int| 0 <= j < i ==> (#[trigger] ids@[j])@ == inputs@[j].change.entity_id@,
        decreases n - i,
    {
        ids.push(chars_of(inputs[i].change.entity_id.as_str()));
        i += 1;
    }
    assert(rows(ids@) =~= input_ids(inputs@));
    let mut edges: Vec<(String, String)> = Vec::new();
    assert(text_pairs(edges@) =~= planned_edges(inputs@, 0));
    let mut m: usize = 0;
    while m < n
        invariant
            m <= n,
            n == inputs@.len(),
            rows(ids@) == input_ids(inputs@),
            text_pairs(edges@) == planned_edges(inputs@, m as int),
        decreases n - m,
    {
        let input = &inputs[m];
        push_links(&mut edges, &input.change.entity_id, &input.facts.dependencies, &ids);
        push_links(&mut edges, &input.change.entity_id, &input.facts.dependents, &ids);
        m += 1;
    }
    edges
}

/// The index of the last of the first `n` groups that holds `id`, or -1.
pub open spec fn holding_group(groups: Seq<ChangeGroup>, id: Seq<char>, n: int) -> int
    decreases n,
{
    if n <= 0 {
        -1
    } else if texts(groups[n - 1].entity_ids@).contains(id) {
        n - 1
    } else {
        holding_group(groups, id, n - 1)
    }
}

/// The number of the group of an entity: that of the last group that holds
/// its id, and 0 where none does.
pub open spec fn group_number(groups: Seq<ChangeGroup>, id: Seq<char>) -> nat {
    let g = holding_group(groups, id, groups.len() as int);
    if g >= 0 {
        groups[g].id as nat
    } else {
        0
    }
}

/// The number of the group of the entity `id`.
pub fn group_of(groups: &Vec<ChangeGroup>, id: &String) -> (number: usize)
    ensures
        number == group_number(groups@, id@),
{
    let total: usize = groups.len();
    let mut n: usize = total;
    while n > 0
        invariant
            n <= total,
            total == groups@.len(),
            holding_group(groups@, id@, total as int) == holding_group(groups@, id@, n as int),
        decreases n,
    {
        let group = &groups[n - 1];
        let ghost held = texts(group.entity_ids@);
        let mut k: usize = 0;
        let mut found = false;
        while k < group.entity_ids.len() && !found
            invariant
                k <= group.entity_ids@.len(),
                held == texts(group.entity_ids@),
                found ==> held.contains(id@),
                !found ==> forall|j: int| 0 <= j < k ==> held[j] != id@,
            decreases group.entity_ids@.len() - k + if found { 0int } else { 1int },
        {
            if group.entity_ids[k] == *id {
                assert(held[k as int] == id@);
                found = true;
            } else {
                k += 1;
            }
        }
        if found {
            return group.id;
        }
        n -= 1;
    }
    0
}

/// The reviews stand in the ranking of their inputs: each is the review of
/// the input at its place in `order`.
pub open spec fn are_ranked_reviews(
    reviews: Seq<EntityReview>,
    inputs: Seq<ChangeInput>,
    total_entities: nat,
    order: Seq<usize>,
) -> bool {
    &&& is_ranking(input_ranks(inputs, total_entities), order)
    &&& reviews.len() == inputs.len()
    &&& forall|p: int|
        0 <= p < reviews.len() ==> is_review_of(
            #[trigger] reviews[p],
            inputs[order[p] as int],
            total_entities,
        )
}

/// The groups split the reviews by the dependency edges among the inputs.
pub open spec fn are_groups_of(
    groups: Seq<ChangeGroup>,
    reviews: Seq<EntityReview>,
    inputs: Seq<ChangeInput>,
    members: Seq<Seq<int>>,
) -> bool {
    &&& is_grouping(review_ids(reviews), planned_edges(inputs, inputs.len() as int), members)
    &&& groups_match(
        review_ids(reviews),
        review_names(reviews),
        review_files(reviews),
        members,
        groups,
    )
}

/// The review of a set of changes.
///
/// Each change is reviewed on its own: classified, told public or not, and
/// scored. The reviews stand by falling score, reviews of one score by
/// rising entity id, and those that agree in both in the order of their
/// changes; the same inputs thus give the same list. The reviews are split
/// into groups by the dependency edges between changed entities, and each
/// review carries the number of the group that holds its id. The counts are
/// those of the reviews; the changes and the timing are handed through.
pub fn review_changes(inputs: Vec<ChangeInput>, total_entities: usize, timing: Timing) -> (result:
    ReviewResult)
    ensures
        result.changes@ == inputs@.map_values(|c: ChangeInput| c.change),
        result.timing == timing,
        is_stats_of(result.stats, result.entity_reviews@),
        result.stats.by_risk.critical + result.stats.by_risk.high + result.stats.by_risk.medium
            + result.stats.by_risk.low == result.entity_reviews@.len(),
        result.stats.total_entities == result.entity_reviews@.len(),
        exists|order: Seq<usize>| #[trigger]
            are_ranked_reviews(result.entity_reviews@, inputs@, total_entities as nat, order),
        exists|members: Seq<Seq<int>>| #[trigger]
            are_groups_of(result.groups@, result.entity_reviews@, inputs@, members),
        forall|p: int|
            0 <= p < result.entity_reviews@.len() ==> (#[trigger] result.entity_reviews@[p]).group_id
                == group_number(result.groups@, result.entity_reviews@[p].entity_id@),
        forall|p: int|
            0 <= p < result.entity_reviews@.len() ==> (#[trigger] result.entity_reviews@[p]).risk_score
                <= crate::risk::SCORE_ONE,
{
    let n: usize = inputs.len();
    let ghost total = total_entities as nat;
    // Each change is reviewed, and ranked by score and id.
    let mut slots: Vec<Option<EntityReview>> = Vec::new();
    let mut keys: Vec<SortKey> = Vec::new();
    let mut i: usize = 0;
    while i < n
        invariant
            i <= n,
            n == inputs@.len(),
            total == total_entities,
            slots@.len() == i,
            keys@.len() == i,
            forall|j: int|
                0 <= j < i ==> (#[trigger] slots@[j]) is Some && is_review_of(
                    slots@[j]->0,
                    inputs@[j],
                    total,
                ) && slots@[j]->0.group_id == 0 && slots@[j]->0.risk_score <= crate::risk::SCORE_ONE,
            forall|j: int|
                0 <= j < i ==> (#[trigger] keys@[j]).major == input_score(inputs@[j], total)
                    && keys@[j].minor@ == inputs@[j].change.entity_id@,
        decreases n - i,
    {
        let review = review_entity(&inputs[i], total_entities);
        keys.push(
            SortKey { major: review.risk_score as u128, minor: chars_of(review.entity_id.as_str()) },
        );
        slots.push(Some(review));
        i += 1;
    }
    assert(ranks(keys@) =~= input_ranks(inputs@, total));
    let order = rank_order(&keys);
    // The reviews in the order of their ranking.
    let mut sorted: Vec<EntityReview> = Vec::new();
    let mut p: usize = 0;
    while p < n
        invariant
            p <= n,
            n == inputs@.len(),
            slots@.len() == n,
            is_ranking(input_ranks(inputs@, total), order@),
            input_ranks(inputs@, total).len() == n,
            sorted@.len() == p,
            forall|g: int|
                0 <= g < n && (#[trigger] slots@[g]) is None ==> exists|q: int|
                    0 <= q < p && lists_at(order@, g, q),
            forall|g: int|
                0 <= g < n && (#[trigger] slots@[g]) is Some ==> is_review_of(
                    slots@[g]->0,
                    inputs@[g],
                    total,
                ) && slots@[g]->0.group_id == 0 && slots@[g]->0.risk_score
                    <= crate::risk::SCORE_ONE,
            forall|q: int|
                0 <= q < p ==> is_review_of(#[trigger] sorted@[q], inputs@[order@[q] as int], total)
                    && sorted@[q].risk_score <= crate::risk::SCORE_ONE,
        decreases n - p,
    {
        let g: usize = order[p];
        let ghost before = slots@;
        assert(before[g as int] is Some) by {
            if before[g as int] is None {
                let q = choose|q: int| 0 <= q < p && lists_at(order@, g as int, q);
                assert(order@[q] != order@[p as int]);
            }
        }
        let taken = slots[g].take();
        assert(slots@ == before.update(g as int, None));
        match taken {
            Some(review) => {
                sorted.push(review);
            },
            None => {},
        }
        proof {
            assert forall|h: int| 0 <= h < n && (#[trigger] slots@[h]) is None implies exists|
                q: int,
            |
                0 <= q < p + 1 && lists_at(order@, h, q) by {
                if h == g {
                    assert(lists_at(order@, h, p as int));
                } else {
                    assert(before[h] is None);
                    let q = choose|q: int| 0 <= q < p && lists_at(order@, h, q);
                    assert(0 <= q < p + 1 && lists_at(order@, h, q));
                }
            }
        }
        p += 1;
    }
    // The groups, and the group of each review.
    let edges = changed_edges(&inputs);
    let groups = untangle(sorted.as_slice(), edges.as_slice());
    let ghost ranked = sorted@;
    let ghost members = choose|members: Seq<Seq<int>>|
        is_grouping(review_ids(ranked), text_pairs(edges@), members) && groups_match(
            review_ids(ranked),
            review_names(ranked),
            review_files(ranked),
            members,
            groups@,
        );
    let mut reviews: Vec<EntityReview> = Vec::new();
    for r in it: sorted
        invariant
            it.seq() == ranked,
            reviews@.len() == it.index(),
            forall|q: int|
                0 <= q < reviews@.len() ==> (#[trigger] reviews@[q]) == (EntityReview {
                    group_id: reviews@[q].group_id,
                    ..ranked[q]
                }) && reviews@[q].group_id == group_number(groups@, ranked[q].entity_id@),
    {
        let number = group_of(&groups, &r.entity_id);
        let mut r = r;
        r.group_id = number;
        reviews.push(r);
    }
    assert(review_ids(reviews@) =~= review_ids(ranked));
    assert(review_names(reviews@) =~= review_names(ranked));
    assert(review_files(reviews@) =~= review_files(ranked));
    let stats = compute_stats(reviews.as_slice());
    // The changes go into the result.
    let mut changes: Vec<SemanticChange> = Vec::new();
    let ghost given = inputs@;
    for input in it: inputs
        invariant
            it.seq() == given,
            changes@.len() == it.index(),
            forall|j: int| 0 <= j < changes@.len() ==> (#[trigger] changes@[j]) == given[j].change,
    {
        changes.push(input.change);
    }
    assert(changes@ =~= given.map_values(|c: ChangeInput| c.change));
    let result = ReviewResult { entity_reviews: reviews, groups, stats, timing, changes };
    proof {
        assert(are_ranked_reviews(result.entity_reviews@, given, total, order@));
        assert(are_groups_of(result.groups@, result.entity_reviews@, given, members));
    }
    result
}

} // verus!
