//! What a review is asked for: the scope of the diff and the floor of risk
//! below which reviews are not shown.

use vstd::prelude::*;
use crate::text::{opt_slice, 
    chars_of, contains, ends_with, find, first_occurrence, has_suffix, lemma_first_occurrence,
    lowercase, same_as, slice_of, text_of, to_lowercase,
};
use crate::types::{EntityReview, RiskLevel};

verus! {

/// The two sides of a diff.
#[derive(Debug, Clone)]
pub enum Scope {
    /// A commit against its first parent.
    Commit { sha: String },
    /// From one ref to another.
    Range { from: String, to: String },
    /// The working tree against the index.
    Working,
}

/// What a scope says.
pub enum ScopeText {
    Commit { sha: Seq<char> },
    Range { from: Seq<char>, to: Seq<char> },
    Working,
}

impl View for Scope {
    type V = ScopeText;

    open spec fn view(&self) -> ScopeText {
        match self {
            Scope::Commit { sha } => ScopeText::Commit { sha: sha@ },
            Scope::Range { from, to } => ScopeText::Range { from: from@, to: to@ },
            Scope::Working => ScopeText::Working,
        }
    }
}

/// What follows the first `..` of a target.
pub open spec fn after_dots(target: Seq<char>) -> Seq<char> {
    target.subrange(first_occurrence(target, ".."@) + 2, target.len() as int)
}

/// The scope that a target names: a range where it holds `..`, from what
/// stands before the first `..` to what stands between it and the next,
/// and a commit otherwise.
pub open spec fn scope_of(target: Seq<char>) -> ScopeText {
    if contains(target, ".."@) {
        let rest = after_dots(target);
        ScopeText::Range {
            from: target.subrange(0, first_occurrence(target, ".."@)),
            to: if contains(rest, ".."@) {
                rest.subrange(0, first_occurrence(rest, ".."@))
            } else {
                rest
            },
        }
    } else {
        ScopeText::Commit { sha: target }
    }
}

/// The scope that a target names, where `working` names the working tree.
pub open spec fn target_of(target: Seq<char>) -> ScopeText {
    if target == "working"@ {
        ScopeText::Working
    } else {
        scope_of(target)
    }
}

/// The scope that a target such as `HEAD~1` or `main..feature` names.
pub fn parse_scope(target: &str) -> (scope: Scope)
    ensures
        scope@ == scope_of(target@),
{
    let t = chars_of(target);
    let dots = chars_of("..");
    proof {
        reveal_strlit("..");
    }
    assert(dots@.len() == 2);
    match find(t.as_slice(), dots.as_slice()) {
        Some(i) => {
            proof {
                lemma_first_occurrence(t@, dots@, i as int);
            }
            let n: usize = t.len();
            assert(i + 2 <= n);
            let from = slice_of(t.as_slice(), 0, i);
            let rest = slice_of(t.as_slice(), i + 2, n);
            let to = match find(rest.as_slice(), dots.as_slice()) {
                Some(j) => {
                    proof {
                        lemma_first_occurrence(rest@, dots@, j as int);
                    }
                    slice_of(rest.as_slice(), 0, j)
                },
                None => rest,
            };
            Scope::Range { from: text_of(from.as_slice()), to: text_of(to.as_slice()) }
        },
        None => Scope::Commit { sha: text_of(t.as_slice()) },
    }
}

/// The scope that a target names, where `working` names the working tree.
pub fn parse_target(target: &str) -> (scope: Scope)
    ensures
        scope@ == target_of(target@),
{
    let t = chars_of(target);
    if same_as(t.as_slice(), "working") {
        Scope::Working
    } else {
        parse_scope(target)
    }
}

/// The level that a word names, whatever its case; a word that names none
/// stands for the lowest.
pub open spec fn level_named(word: Seq<char>) -> RiskLevel {
    let w = lowercase(word);
    if w == "critical"@ {
        RiskLevel::Critical
    } else if w == "high"@ {
        RiskLevel::High
    } else if w == "medium"@ {
        RiskLevel::Medium
    } else {
        RiskLevel::Low
    }
}

/// The level that a word names.
pub fn parse_risk_level(s: &str) -> (level: RiskLevel)
    ensures
        level == level_named(s@),
{
    let lower = to_lowercase(s);
    let w = chars_of(lower.as_str());
    if same_as(w.as_slice(), "critical") {
        RiskLevel::Critical
    } else if same_as(w.as_slice(), "high") {
        RiskLevel::High
    } else if same_as(w.as_slice(), "medium") {
        RiskLevel::Medium
    } else {
        RiskLevel::Low
    }
}

/// Those of the first `n` reviews that are of the level `floor` or above,
/// in order.
pub open spec fn at_least(reviews: Seq<EntityReview>, floor: RiskLevel, n: int) -> Seq<
    EntityReview,
>
    decreases n,
{
    if n <= 0 {
        Seq::empty()
    } else if reviews[n - 1].risk_level.rank_spec() >= floor.rank_spec() {
        at_least(reviews, floor, n - 1).push(reviews[n - 1])
    } else {
        at_least(reviews, floor, n - 1)
    }
}

/// The reviews of the level `floor` or above, in order.
pub fn keep_at_least(reviews: Vec<EntityReview>, floor: RiskLevel) -> (kept: Vec<EntityReview>)
    ensures
        kept@ == at_least(reviews@, floor, reviews@.len() as int),
{
    let ghost all = reviews@;
    let mut kept: Vec<EntityReview> = Vec::new();
    for r in it: reviews
        invariant
            it.seq() == all,
            kept@ == at_least(all, floor, it.index() as int),
    {
        if r.risk_level.at_least(floor) {
            kept.push(r);
        }
    }
    kept
}

/// Those of the first `n` reviews whose file path ends with `path`, in
/// order.
pub open spec fn in_file(reviews: Seq<EntityReview>, path: Seq<char>, n: int) -> Seq<EntityReview>
    decreases n,
{
    if n <= 0 {
        Seq::empty()
    } else if ends_with(reviews[n - 1].file_path@, path) {
        in_file(reviews, path, n - 1).push(reviews[n - 1])
    } else {
        in_file(reviews, path, n - 1)
    }
}

/// The reviews of the entities in the file `path`, in order.
pub fn keep_in_file(reviews: Vec<EntityReview>, path: &str) -> (kept: Vec<EntityReview>)
    ensures
        kept@ == in_file(reviews@, path@, reviews@.len() as int),
{
    let ghost all = reviews@;
    let mut kept: Vec<EntityReview> = Vec::new();
    for r in it: reviews
        invariant
            it.seq() == all,
            kept@ == in_file(all, path@, it.index() as int),
    {
        let file = chars_of(r.file_path.as_str());
        if has_suffix(file.as_slice(), path) {
            kept.push(r);
        }
    }
    kept
}

/// Whether a review is of the entity `name`, in a file whose path ends
/// with `file_path` where one is given.
pub open spec fn is_entity(review: EntityReview, name: Seq<char>, file_path: Option<Seq<char>>) -> bool {
    review.entity_name@ == name && match file_path {
        Some(p) => ends_with(review.file_path@, p),
        None => true,
    }
}

/// The place of the first review of the entity `name`, in a file whose
/// path ends with `file_path` where one is given.
pub fn find_entity(reviews: &[EntityReview], name: &str, file_path: Option<&str>) -> (r: Option<
    usize,
>)
    ensures
        r matches Some(i) ==> i < reviews@.len() && is_entity(
            reviews@[i as int],
            name@,
            opt_slice(file_path),
        ) && forall|j: int|
            0 <= j < i ==> !is_entity(#[trigger] reviews@[j], name@, opt_slice(file_path)),
        r is None ==> forall|j: int|
            0 <= j < reviews@.len() ==> !is_entity(
                #[trigger] reviews@[j],
                name@,
                opt_slice(file_path),
            ),
{
    let wanted = chars_of(name);
    let mut i: usize = 0;
    while i < reviews.len()
        invariant
            i <= reviews@.len(),
            wanted@ == name@,
            forall|j: int|
                0 <= j < i ==> !is_entity(#[trigger] reviews@[j], name@, opt_slice(file_path)),
        decreases reviews@.len() - i,
    {
        let r = &reviews[i];
        if crate::text::same(chars_of(r.entity_name.as_str()).as_slice(), wanted.as_slice()) {
            let in_file = match file_path {
                Some(p) => has_suffix(chars_of(r.file_path.as_str()).as_slice(), p),
                None => true,
            };
            if in_file {
                return Some(i);
            }
        }
        i += 1;
    }
    None
}

/// The places among the first `n` at which `keep` holds, in order.
pub open spec fn places_where(n: int, keep: spec_fn(int) -> bool) -> Seq<usize>
    decreases n,
{
    if n <= 0 {
        Seq::empty()
    } else if keep(n - 1) {
        places_where(n - 1, keep).push((n - 1) as usize)
    } else {
        places_where(n - 1, keep)
    }
}

/// The places of the reviews whose file path ends with `path`, in order.
pub fn entities_in_file(reviews: &[EntityReview], path: &str) -> (places: Vec<usize>)
    ensures
        places@ == places_where(
            reviews@.len() as int,
            |i: int| ends_with(reviews@[i].file_path@, path@),
        ),
{
    let ghost keep = |i: int| ends_with(reviews@[i].file_path@, path@);
    let mut places: Vec<usize> = Vec::new();
    let mut i: usize = 0;
    while i < reviews.len()
        invariant
            i <= reviews@.len(),
            keep == |i: int| ends_with(reviews@[i].file_path@, path@),
            places@ == places_where(i as int, keep),
        decreases reviews@.len() - i,
    {
        if has_suffix(chars_of(reviews[i].file_path.as_str()).as_slice(), path) {
            assert(keep(i as int));
            places.push(i);
        } else {
            assert(!keep(i as int));
        }
        i += 1;
    }
    places
}

/// The places of the reviews whose entity id is one of `ids`, in order.
pub fn entities_in_group(reviews: &[EntityReview], ids: &[String]) -> (places: Vec<usize>)
    ensures
        places@ == places_where(
            reviews@.len() as int,
            |i: int| crate::text::texts(ids@).contains(reviews@[i].entity_id@),
        ),
{
    let ghost keep = |i: int| crate::text::texts(ids@).contains(reviews@[i].entity_id@);
    let ghost held = crate::text::texts(ids@);
    let mut places: Vec<usize> = Vec::new();
    let mut i: usize = 0;
    while i < reviews.len()
        invariant
            i <= reviews@.len(),
            held == crate::text::texts(ids@),
            keep == |i: int| crate::text::texts(ids@).contains(reviews@[i].entity_id@),
            places@ == places_where(i as int, keep),
        decreases reviews@.len() - i,
    {
        let mut k: usize = 0;
        let mut found = false;
        while k < ids.len() && !found
            invariant
                k <= ids@.len(),
                i < reviews@.len(),
                held == crate::text::texts(ids@),
                found ==> held.contains(reviews@[i as int].entity_id@),
                !found ==> forall|j: int| 0 <= j < k ==> held[j] != reviews@[i as int].entity_id@,
            decreases ids@.len() - k + if found { 0int } else { 1int },
        {
            if ids[k] == reviews[i].entity_id {
                assert(held[k as int] == reviews@[i as int].entity_id@);
                found = true;
            } else {
                k += 1;
            }
        }
        if found {
            assert(keep(i as int));
            places.push(i);
        } else {
            assert(!keep(i as int));
        }
        i += 1;
    }
    places
}

} // verus!
