//! The risk of a set of changes file by file.

use vstd::prelude::*;
use crate::order::{is_ranking, rank_order, ranks, SortKey};
use crate::types::{EntityReview, RiskLevel};

verus! {

/// The risk that the changes to one file add up to.
#[derive(Debug, Clone)]
pub struct FileRisk {
    pub file: String,
    /// The highest score among the entities of the file, in millionths.
    pub max_score: u64,
    /// The level of the first entity that reaches the highest score; low
    /// where no score is above zero.
    pub max_risk: RiskLevel,
    pub entity_count: usize,
    pub critical: usize,
    pub high: usize,
    pub public_api_changes: usize,
}

/// What the risk of a file says.
pub struct FileRiskText {
    pub file: Seq<char>,
    pub max_score: nat,
    pub max_risk: RiskLevel,
    pub entity_count: nat,
    pub critical: nat,
    pub high: nat,
    pub public_api_changes: nat,
}

impl View for FileRisk {
    type V = FileRiskText;

    open spec fn view(&self) -> FileRiskText {
        FileRiskText {
            file: self.file@,
            max_score: self.max_score as nat,
            max_risk: self.max_risk,
            entity_count: self.entity_count as nat,
            critical: self.critical as nat,
            high: self.high as nat,
            public_api_changes: self.public_api_changes as nat,
        }
    }
}

/// What each risk says.
pub open spec fn risk_texts(v: Seq<FileRisk>) -> Seq<FileRiskText> {
    v.map_values(|r: FileRisk| r@)
}

/// A count with one more where `hit` holds.
pub open spec fn bumped(n: nat, hit: bool) -> nat {
    if hit {
        n + 1
    } else {
        n
    }
}

/// The risk of `file` as the first `n` reviews add it up.
pub open spec fn risk_of_file(reviews: Seq<EntityReview>, file: Seq<char>, n: int) -> FileRiskText
    decreases n,
{
    if n <= 0 {
        FileRiskText {
            file,
            max_score: 0,
            max_risk: RiskLevel::Low,
            entity_count: 0,
            critical: 0,
            high: 0,
            public_api_changes: 0,
        }
    } else {
        let before = risk_of_file(reviews, file, n - 1);
        let r = reviews[n - 1];
        if r.file_path@ == file {
            FileRiskText {
                file,
                max_score: if r.risk_score > before.max_score {
                    r.risk_score as nat
                } else {
                    before.max_score
                },
                max_risk: if r.risk_score > before.max_score {
                    r.risk_level
                } else {
                    before.max_risk
                },
                entity_count: before.entity_count + 1,
                critical: bumped(before.critical, r.risk_level == RiskLevel::Critical),
                high: bumped(before.high, r.risk_level == RiskLevel::High),
                public_api_changes: bumped(before.public_api_changes, r.is_public_api),
            }
        } else {
            before
        }
    }
}

/// The review at `i` is the first of its file.
pub open spec fn opens_file(reviews: Seq<EntityReview>, i: int) -> bool {
    forall|j: int| 0 <= j < i ==> (#[trigger] reviews[j]).file_path@ != reviews[i].file_path@
}

/// The risks of the files of the first `n` reviews, each file where its
/// first review stands.
pub open spec fn risks_by_file(reviews: Seq<EntityReview>, n: int) -> Seq<FileRiskText>
    decreases n,
{
    if n <= 0 {
        Seq::empty()
    } else if opens_file(reviews, n - 1) {
        risks_by_file(reviews, n - 1).push(
            risk_of_file(reviews, reviews[n - 1].file_path@, reviews.len() as int),
        )
    } else {
        risks_by_file(reviews, n - 1)
    }
}

/// What ranks each file: its highest score alone.
pub open spec fn file_ranks(risks: Seq<FileRiskText>) -> Seq<(nat, Seq<char>)> {
    risks.map_values(|r: FileRiskText| (r.max_score, Seq::<char>::empty()))
}

/// `map` holds the risks of the files of `reviews` by falling highest
/// score, files of one score in the order of their first reviews.
pub open spec fn is_risk_map(map: Seq<FileRiskText>, reviews: Seq<EntityReview>, order: Seq<usize>) -> bool {
    let risks = risks_by_file(reviews, reviews.len() as int);
    &&& is_ranking(file_ranks(risks), order)
    &&& map.len() == risks.len()
    &&& forall|p: int| 0 <= p < map.len() ==> (#[trigger] map[p]) == risks[order[p] as int]
}

/// The risk of one file.
fn file_risk(reviews: &[EntityReview], first: usize) -> (r: FileRisk)
    requires
        first < reviews@.len(),
    ensures
        r@ == risk_of_file(reviews@, reviews@[first as int].file_path@, reviews@.len() as int),
{
    let file = &reviews[first].file_path;
    let mut max_score: u64 = 0;
    let mut max_risk = RiskLevel::Low;
    let mut entity_count: usize = 0;
    let mut critical: usize = 0;
    let mut high: usize = 0;
    let mut public_api_changes: usize = 0;
    let mut k: usize = 0;
    while k < reviews.len()
        invariant
            k <= reviews@.len(),
            first < reviews@.len(),
            *file == reviews@[first as int].file_path,
            entity_count <= k,
            critical <= k,
            high <= k,
            public_api_changes <= k,
            risk_of_file(reviews@, file@, k as int) == (FileRiskText {
                file: file@,
                max_score: max_score as nat,
                max_risk,
                entity_count: entity_count as nat,
                critical: critical as nat,
                high: high as nat,
                public_api_changes: public_api_changes as nat,
            }),
        decreases reviews@.len() - k,
    {
        let r = &reviews[k];
        if r.file_path == *file {
            if r.risk_score > max_score {
                max_score = r.risk_score;
                max_risk = r.risk_level;
            }
            entity_count += 1;
            match r.risk_level {
                RiskLevel::Critical => {
                    critical += 1;
                },
                RiskLevel::High => {
                    high += 1;
                },
                _ => {},
            }
            if r.is_public_api {
                public_api_changes += 1;
            }
        }
        k += 1;
    }
    FileRisk {
        file: file.clone(),
        max_score,
        max_risk,
        entity_count,
        critical,
        high,
        public_api_changes,
    }
}

/// The risk of a set of changes file by file: for each file the highest
/// score among its entities, how many they are, how many of them are of
/// critical and of high risk, and how many are public. The files stand by
/// falling highest score.
pub fn risk_map(reviews: &[EntityReview]) -> (map: Vec<FileRisk>)
    ensures
        exists|order: Seq<usize>| #[trigger] is_risk_map(risk_texts(map@), reviews@, order),
{
    let n: usize = reviews.len();
    let mut slots: Vec<Option<FileRisk>> = Vec::new();
    let mut keys: Vec<SortKey> = Vec::new();
    let ghost mut risks: Seq<FileRiskText> = Seq::empty();
    let mut i: usize = 0;
    while i < n
        invariant
            i <= n,
            n == reviews@.len(),
            risks == risks_by_file(reviews@, i as int),
            slots@.len() == risks.len(),
            keys@.len() == risks.len(),
            forall|k: int| 0 <= k < slots@.len()
                ==> (#[trigger] slots@[k]) is Some
                    && slots@[k]->0@ == risks[k],
            forall|k: int|
                0 <= k < keys@.len() ==> (#[trigger] keys@[k]).major == risks[k].max_score
                    && keys@[k].minor@ == Seq::<char>::empty(),
        decreases n - i,
    {
        let mut opens = true;
        let mut j: usize = 0;
        while j < i && opens
            invariant
                j <= i < n,
                n == reviews@.len(),
                opens ==> forall|x: int|
                    0 <= x < j ==> (#[trigger] reviews@[x]).file_path@ != reviews@[i as int].file_path@,
                !opens ==> !opens_file(reviews@, i as int),
            decreases i - j + if opens { 1int } else { 0int },
        {
            if reviews[j].file_path == reviews[i].file_path {
                opens = false;
            } else {
                j += 1;
            }
        }
        if opens {
            let risk = file_risk(reviews, i);
            let minor: Vec<char> = Vec::new();
            assert(minor@ =~= Seq::<char>::empty());
            keys.push(SortKey { major: risk.max_score as u128, minor });
            proof {
                risks = risks.push(risk@);
            }
            slots.push(Some(risk));
        }
        i += 1;
    }
    assert(ranks(keys@) =~= file_ranks(risks));
    let order = rank_order(&keys);
    let count: usize = slots.len();
    let mut map: Vec<FileRisk> = Vec::new();
    let mut p: usize = 0;
    while p < count
        invariant
            p <= count,
            count == risks.len(),
            slots@.len() == count,
            is_ranking(file_ranks(risks), order@),
            file_ranks(risks).len() == count,
            map@.len() == p,
            forall|g: int|
                0 <= g < count && (#[trigger] slots@[g]) is None ==> exists|q: int|
                    0 <= q < p && crate::order::lists_at(order@, g, q),
            forall|g: int| 0 <= g < count && (#[trigger] slots@[g]) is Some
                ==> slots@[g]->0@ == risks[g],
            forall|q: int| 0 <= q < p ==> (#[trigger] map@[q])@ == risks[order@[q] as int],
        decreases count - p,
    {
        let g: usize = order[p];
        let ghost before = slots@;
        assert(before[g as int] is Some) by {
            if before[g as int] is None {
                let q = choose|q: int| 0 <= q < p && crate::order::lists_at(order@, g as int, q);
                assert(order@[q] != order@[p as int]);
            }
        }
        let taken = slots[g].take();
        assert(slots@ == before.update(g as int, None));
        match taken {
            Some(risk) => {
                map.push(risk);
            },
            None => {},
        }
        proof {
            assert forall|h: int| 0 <= h < count && (#[trigger] slots@[h]) is None implies exists|
                q: int,
            |
                0 <= q < p + 1 && crate::order::lists_at(order@, h, q) by {
                if h == g {
                    assert(crate::order::lists_at(order@, h, p as int));
                } else {
                    assert(before[h] is None);
                    let q = choose|q: int| 0 <= q < p && crate::order::lists_at(order@, h, q);
                    assert(0 <= q < p + 1 && crate::order::lists_at(order@, h, q));
                }
            }
        }
        p += 1;
    }
    proof {
        assert(is_risk_map(risk_texts(map@), reviews@, order@));
    }
    map
}

} // verus!
