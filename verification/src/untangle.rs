//! The untangler: splits the reviews of one diff into groups of changes
//! that depend on each other.

use vstd::prelude::*;
use crate::noise::name_start;
use crate::order::{is_ranking, lists, lists_at, rank_order, SortKey};
use crate::text::{
    chars_of, decimal, push_decimal, push_str, rows, same, slice_of, text_of, text_pairs, texts,
};
use crate::types::{ChangeGroup, EntityReview};
use crate::union_find::UnionFind;

verus! {

/// The entity ids of the reviews, in order.
pub open spec fn review_ids(reviews: Seq<EntityReview>) -> Seq<Seq<char>> {
    reviews.map_values(|r: EntityReview| r.entity_id@)
}

/// The index of the last of the first `n` ids that is `id`, or -1.
pub open spec fn last_index(ids: Seq<Seq<char>>, id: Seq<char>, n: int) -> int
    decreases n,
{
    if n <= 0 {
        -1
    } else if ids[n - 1] == id {
        n - 1
    } else {
        last_index(ids, id, n - 1)
    }
}

/// The review that an id stands for: the last one that carries it.
pub open spec fn review_of(ids: Seq<Seq<char>>, id: Seq<char>) -> int {
    last_index(ids, id, ids.len() as int)
}

/// The reviews `i` and `j` are linked by a chain of the first `k` edges.
/// An edge links the reviews that its two ids stand for; one with an id
/// that no review carries links nothing.
pub open spec fn joined(
    ids: Seq<Seq<char>>,
    edges: Seq<(Seq<char>, Seq<char>)>,
    k: int,
    i: int,
    j: int,
) -> bool
    decreases k,
{
    if k <= 0 {
        i == j
    } else {
        let a = review_of(ids, edges[k - 1].0);
        let b = review_of(ids, edges[k - 1].1);
        joined(ids, edges, k - 1, i, j) || (a >= 0 && b >= 0 && ((joined(ids, edges, k - 1, i, a)
            && joined(ids, edges, k - 1, b, j)) || (joined(ids, edges, k - 1, i, b) && joined(
            ids,
            edges,
            k - 1,
            a,
            j,
        ))))
    }
}

/// The reviews `i` and `j` are linked by a chain of edges.
pub open spec fn connected(
    ids: Seq<Seq<char>>,
    edges: Seq<(Seq<char>, Seq<char>)>,
    i: int,
    j: int,
) -> bool {
    joined(ids, edges, edges.len() as int, i, j)
}

/// `members` splits the reviews into their connected sets: every review is
/// in one list, two reviews share a list exactly if they are connected, each
/// list rises, and the lists stand by falling length, lists of one length by
/// their first member.
pub open spec fn is_grouping(
    ids: Seq<Seq<char>>,
    edges: Seq<(Seq<char>, Seq<char>)>,
    members: Seq<Seq<int>>,
) -> bool {
    &&& forall|g: int| 0 <= g < members.len() ==> (#[trigger] members[g]).len() > 0
    &&& forall|g: int, k: int|
        0 <= g < members.len() && 0 <= k < members[g].len() ==> 0 <= (#[trigger] members[g][k])
            < ids.len()
    &&& forall|g: int, k: int, l: int|
        0 <= g < members.len() && 0 <= k < l < members[g].len() ==> (#[trigger] members[g][k])
            < (#[trigger] members[g][l])
    &&& forall|i: int| 0 <= i < ids.len() ==> #[trigger] is_member(members, i)
    &&& forall|g: int, h: int, k: int, l: int|
        0 <= g < members.len() && 0 <= h < members.len() && 0 <= k < members[g].len() && 0 <= l
            < members[h].len() ==> (g == h <==> connected(
            ids,
            edges,
            #[trigger] members[g][k],
            #[trigger] members[h][l],
        ))
    &&& forall|g: int, h: int|
        0 <= g < h < members.len() ==> (#[trigger] members[g]).len() > (#[trigger] members[h]).len()
            || (members[g].len() == members[h].len() && members[g][0] < members[h][0])
}

/// The review `i` stands at place `k` of list `g`.
pub open spec fn member_at(members: Seq<Seq<int>>, i: int, g: int, k: int) -> bool {
    0 <= g < members.len() && 0 <= k < members[g].len() && members[g][k] == i
}

/// The review `i` is in one of the lists.
pub open spec fn is_member(members: Seq<Seq<int>>, i: int) -> bool {
    exists|g: int, k: int| member_at(members, i, g, k)
}

/// How far `a` and `b` agree from index `k` on: the first index at which
/// they differ or one of them ends.
pub open spec fn agree_until(a: Seq<char>, b: Seq<char>, k: int) -> int
    decreases a.len() - k,
{
    if 0 <= k < a.len() && k < b.len() && a[k] == b[k] {
        agree_until(a, b, k + 1)
    } else {
        k
    }
}

/// The number of leading characters that the first `m` texts share.
pub open spec fn shared_len(texts: Seq<Seq<char>>, m: int) -> int
    decreases m,
{
    if m <= 1 {
        texts[0].len() as int
    } else {
        let rest = shared_len(texts, m - 1);
        let here = agree_until(texts[0], texts[m - 1], 0);
        if here < rest {
            here
        } else {
            rest
        }
    }
}

/// The longest prefix that all texts share, cut after its last `/` where it
/// holds one. No texts share the empty prefix.
pub open spec fn path_prefix(texts: Seq<Seq<char>>) -> Seq<char> {
    if texts.len() == 0 {
        Seq::empty()
    } else {
        let p = texts[0].subrange(0, shared_len(texts, texts.len() as int));
        let cut = name_start(p, p.len() as int);
        if cut > 0 {
            p.subrange(0, cut)
        } else {
            p
        }
    }
}

/// The entity names of the reviews, in order.
pub open spec fn review_names(reviews: Seq<EntityReview>) -> Seq<Seq<char>> {
    reviews.map_values(|r: EntityReview| r.entity_name@)
}

/// The file paths of the reviews, in order.
pub open spec fn review_files(reviews: Seq<EntityReview>) -> Seq<Seq<char>> {
    reviews.map_values(|r: EntityReview| r.file_path@)
}

/// The label of a group: the name of its one entity, else the path prefix
/// that the files of its entities share, else their number.
pub open spec fn group_label(
    names: Seq<Seq<char>>,
    files: Seq<Seq<char>>,
    members: Seq<int>,
) -> Seq<char> {
    if members.len() == 1 {
        names[members[0]]
    } else {
        let shared = path_prefix(members.map_values(|i: int| files[i]));
        if shared.len() == 0 {
            decimal(members.len()) + " entities"@
        } else {
            shared
        }
    }
}

/// The groups are the lists of `members`, numbered from 0, each with the
/// ids of its reviews and its label.
pub open spec fn groups_match(
    ids: Seq<Seq<char>>,
    names: Seq<Seq<char>>,
    files: Seq<Seq<char>>,
    members: Seq<Seq<int>>,
    groups: Seq<ChangeGroup>,
) -> bool {
    &&& groups.len() == members.len()
    &&& forall|g: int|
        0 <= g < groups.len() ==> {
            &&& (#[trigger] groups[g]).id == g
            &&& texts(groups[g].entity_ids@) == members[g].map_values(|i: int| ids[i])
            &&& groups[g].label@ == group_label(names, files, members[g])
        }
}

/// The views of a sequence of string slices.
pub open spec fn slices(v: Seq<&str>) -> Seq<Seq<char>> {
    v.map_values(|s: &str| s@)
}

/// The longest prefix that all of `strings` share, cut after its last `/`
/// where it holds one.
pub fn common_prefix(strings: &[&str]) -> (r: String)
    ensures
        r@ == path_prefix(slices(strings@)),
{
    if strings.len() == 0 {
        return String::new();
    }
    let ghost all = slices(strings@);
    let first = chars_of(strings[0]);
    assert(first@ == all[0]);
    let mut len: usize = first.len();
    let mut m: usize = 1;
    while m < strings.len()
        invariant
            1 <= m <= strings@.len(),
            all == slices(strings@),
            first@ == all[0],
            len == shared_len(all, m as int),
            len <= first@.len(),
        decreases strings@.len() - m,
    {
        let other = chars_of(strings[m]);
        assert(other@ == all[m as int]);
        let mut k: usize = 0;
        while k < first.len() && k < other.len() && first[k] == other[k]
            invariant
                k <= first@.len(),
                k <= other@.len(),
                agree_until(first@, other@, 0) == agree_until(first@, other@, k as int),
            decreases first@.len() - k,
        {
            k += 1;
        }
        if k < len {
            len = k;
        }
        m += 1;
    }
    let prefix = slice_of(first.as_slice(), 0, len);
    let mut cut: usize = len;
    while cut > 0 && prefix[cut - 1] != '/'
        invariant
            cut <= len,
            len == prefix@.len(),
            name_start(prefix@, len as int) == name_start(prefix@, cut as int),
        decreases cut,
    {
        cut -= 1;
    }
    if cut > 0 {
        let head = slice_of(prefix.as_slice(), 0, cut);
        text_of(head.as_slice())
    } else {
        text_of(prefix.as_slice())
    }
}

/// The review that `id` stands for, if any.
fn lookup(ids: &Vec<Vec<char>>, id: &[char]) -> (r: Option<usize>)
    ensures
        match r {
            Some(i) => i < ids@.len() && i == review_of(rows(ids@), id@),
            None => review_of(rows(ids@), id@) < 0,
        },
{
    let total: usize = ids.len();
    let mut n: usize = total;
    while n > 0
        invariant
            n <= total,
            total == ids@.len(),
            review_of(rows(ids@), id@) == last_index(rows(ids@), id@, n as int),
        decreases n,
    {
        assert(rows(ids@)[n - 1] == ids@[n - 1]@);
        if same(ids[n - 1].as_slice(), id) {
            return Some(n - 1);
        }
        n -= 1;
    }
    None
}

/// The places of `group_of` that hold `g`, in rising order.
fn members_of(group_of: &Vec<usize>, g: usize) -> (m: Vec<usize>)
    ensures
        forall|k: int| 0 <= k < m@.len()
            ==> (#[trigger] m@[k]) < group_of@.len()
                && group_of@[m@[k] as int] == g,
        forall|k: int, l: int| 0 <= k < l < m@.len() ==> m@[k] < m@[l],
        forall|j: int| 0 <= j < group_of@.len() && group_of@[j] == g ==> #[trigger] lists(m@, j),
{
    let n: usize = group_of.len();
    let mut m: Vec<usize> = Vec::new();
    let mut j: usize = 0;
    while j < n
        invariant
            j <= n,
            n == group_of@.len(),
            forall|k: int| 0 <= k < m@.len()
                ==> (#[trigger] m@[k]) < j
                    && group_of@[m@[k] as int] == g,
            forall|k: int, l: int| 0 <= k < l < m@.len() ==> m@[k] < m@[l],
            forall|x: int| 0 <= x < j && group_of@[x] == g ==> #[trigger] lists(m@, x),
        decreases n - j,
    {
        if group_of[j] == g {
            let ghost before = m@;
            m.push(j);
            proof {
                assert forall|x: int| 0 <= x < j + 1 && group_of@[x] == g implies #[trigger] lists(
                    m@,
                    x,
                ) by {
                    if x < j {
                        assert(lists(before, x));
                        let p = choose|p: int| lists_at(before, x, p);
                        assert(lists_at(m@, x, p));
                    } else {
                        assert(lists_at(m@, x, before.len() as int));
                    }
                }
            }
        }
        j += 1;
    }
    m
}

/// A list of places as a list of integers.
pub open spec fn places(m: Seq<usize>) -> Seq<int> {
    m.map_values(|x: usize| x as int)
}

/// The group of the reviews at `members`, under the number `id`.
fn make_group(reviews: &[EntityReview], members: &Vec<usize>, id: usize) -> (group: ChangeGroup)
    requires
        members@.len() > 0,
        forall|k: int| 0 <= k < members@.len() ==> (#[trigger] members@[k]) < reviews@.len(),
    ensures
        group.id == id,
        texts(group.entity_ids@) == places(members@).map_values(
            |i: int| review_ids(reviews@)[i],
        ),
        group.label@ == group_label(
            review_names(reviews@),
            review_files(reviews@),
            places(members@),
        ),
{
    let count: usize = members.len();
    let mut entity_ids: Vec<String> = Vec::new();
    let mut files: Vec<&str> = Vec::new();
    let mut k: usize = 0;
    while k < count
        invariant
            k <= count,
            count == members@.len(),
            forall|x: int| 0 <= x < members@.len() ==> (#[trigger] members@[x]) < reviews@.len(),
            entity_ids@.len() == k,
            files@.len() == k,
            forall|x: int| 0 <= x < k
                ==> (#[trigger] entity_ids@[x])@ == reviews@[members@[x] as int].entity_id@,
            forall|x: int| 0 <= x < k
                ==> (#[trigger] files@[x])@ == reviews@[members@[x] as int].file_path@,
        decreases count - k,
    {
        let review = &reviews[members[k]];
        entity_ids.push(review.entity_id.clone());
        files.push(review.file_path.as_str());
        k += 1;
    }
    assert(texts(entity_ids@) =~= places(members@).map_values(|i: int| review_ids(reviews@)[i]));
    assert(slices(files@) =~= places(members@).map_values(|i: int| review_files(reviews@)[i]));
    let label = if count == 1 {
        reviews[members[0]].entity_name.clone()
    } else {
        let shared = common_prefix(files.as_slice());
        if shared.as_str().unicode_len() == 0 {
            let mut text: Vec<char> = Vec::new();
            push_decimal(&mut text, count as u64);
            push_str(&mut text, " entities");
            text_of(text.as_slice())
        } else {
            shared
        }
    };
    ChangeGroup { id, label, entity_ids }
}

/// Splits reviews into groups by the dependency edges between them.
///
/// Two reviews share a group exactly if a chain of edges links them. An
/// edge names two entity ids; an id stands for the last review that carries
/// it, and an edge with an id that no review carries is passed over. Within
/// a group the ids stand in the order of the reviews. The groups stand by
/// falling size, groups of one size in the order of their first reviews,
/// and are numbered from 0 in that order.
pub fn untangle(reviews: &[EntityReview], dependency_edges: &[(String, String)]) -> (groups: Vec<
    ChangeGroup,
>)
    ensures
        exists|members: Seq<Seq<int>>|
            #![trigger is_grouping(review_ids(reviews@), text_pairs(dependency_edges@), members)]
            is_grouping(review_ids(reviews@), text_pairs(dependency_edges@), members)
                && groups_match(
                review_ids(reviews@),
                review_names(reviews@),
                review_files(reviews@),
                members,
                groups@,
            ),
{
    let n: usize = reviews.len();
    let ghost idv = review_ids(reviews@);
    let ghost edv = text_pairs(dependency_edges@);
    // The ids, as characters.
    let mut ids: Vec<Vec<char>> = Vec::new();
    let mut i: usize = 0;
    while i < n
        invariant
            i <= n,
            n == reviews@.len(),
            ids@.len() == i,
            forall|x: int| 0 <= x < i ==> (#[trigger] ids@[x])@ == reviews@[x].entity_id@,
        decreases n - i,
    {
        ids.push(chars_of(reviews[i].entity_id.as_str()));
        i += 1;
    }
    assert(rows(ids@) =~= idv);
    // One set for each review; each edge joins two sets.
    let mut uf = UnionFind::new(n);
    let mut e: usize = 0;
    while e < dependency_edges.len()
        invariant
            e <= dependency_edges@.len(),
            n == reviews@.len(),
            idv == review_ids(reviews@),
            edv == text_pairs(dependency_edges@),
            rows(ids@) == idv,
            ids@.len() == n,
            uf.wf(),
            uf.size() == n,
            forall|a: int, b: int|
                0 <= a < n && 0 <= b < n ==> (#[trigger] uf.same(a, b) <==> joined(
                    idv,
                    edv,
                    e as int,
                    a,
                    b,
                )),
        decreases dependency_edges@.len() - e,
    {
        let from = chars_of(dependency_edges[e].0.as_str());
        let to = chars_of(dependency_edges[e].1.as_str());
        assert(edv[e as int] == (from@, to@));
        let a = lookup(&ids, from.as_slice());
        let b = lookup(&ids, to.as_slice());
        let ghost before = uf;
        match (a, b) {
            (Some(a), Some(b)) => {
                uf.union(a, b);
                assert forall|x: int, y: int| 0 <= x < n && 0 <= y < n implies (#[trigger] uf.same(
                    x,
                    y,
                ) <==> joined(idv, edv, e + 1, x, y)) by {
                    assert(before.same(x, y) <==> joined(idv, edv, e as int, x, y));
                    assert(before.same(x, a as int) <==> joined(idv, edv, e as int, x, a as int));
                    assert(before.same(x, b as int) <==> joined(idv, edv, e as int, x, b as int));
                    assert(before.same(a as int, y) <==> joined(idv, edv, e as int, a as int, y));
                    assert(before.same(b as int, y) <==> joined(idv, edv, e as int, b as int, y));
                }
            },
            _ => {
                assert forall|x: int, y: int| 0 <= x < n && 0 <= y < n implies (#[trigger] uf.same(
                    x,
                    y,
                ) <==> joined(idv, edv, e + 1, x, y)) by {
                    assert(before.same(x, y) <==> joined(idv, edv, e as int, x, y));
                }
            },
        }
        e += 1;
    }
    // The root of each review.
    let mut root: Vec<usize> = Vec::new();
    let mut i: usize = 0;
    while i < n
        invariant
            i <= n,
            uf.wf(),
            uf.size() == n,
            root@.len() == i,
            forall|x: int| 0 <= x < i ==> (#[trigger] root@[x]) == uf.root_of(x),
            forall|a: int, b: int|
                0 <= a < n && 0 <= b < n ==> (#[trigger] uf.same(a, b) <==> connected(
                    idv,
                    edv,
                    a,
                    b,
                )),
        decreases n - i,
    {
        let ghost before = uf;
        let r = uf.find(i);
        assert forall|a: int, b: int| 0 <= a < n && 0 <= b < n implies (#[trigger] uf.same(a, b)
            <==> connected(idv, edv, a, b)) by {
            assert(before.same(a, b) <==> connected(idv, edv, a, b));
        }
        root.push(r);
        i += 1;
    }
    assert forall|a: int, b: int| 0 <= a < n && 0 <= b < n implies (root@[a] == root@[b]
        <==> connected(idv, edv, a, b)) by {
        assert(uf.same(a, b) <==> connected(idv, edv, a, b));
    }
    // The group of each review; groups are numbered as their first
    // reviews come.
    let mut seen: Vec<usize> = Vec::new();
    let mut group_of: Vec<usize> = Vec::new();
    let ghost mut leader: Seq<int> = Seq::empty();
    let mut i: usize = 0;
    while i < n
        invariant
            i <= n,
            root@.len() == n,
            group_of@.len() == i,
            seen@.len() == leader.len(),
            forall|x: int| 0 <= x < i
                ==> (#[trigger] group_of@[x]) < seen@.len()
                    && seen@[group_of@[x] as int] == root@[x],
            forall|g: int| 0 <= g < seen@.len()
                ==> 0 <= (#[trigger] leader[g]) < i
                    && group_of@[leader[g]] == g,
            forall|g: int, h: int| 0 <= g < h < seen@.len() ==> seen@[g] != seen@[h],
            forall|g: int, h: int| 0 <= g < h < seen@.len() ==> leader[g] < leader[h],
            forall|x: int| 0 <= x < i ==> leader[(#[trigger] group_of@[x]) as int] <= x,
        decreases n - i,
    {
        let r = root[i];
        let mut g: usize = 0;
        while g < seen.len() && seen[g] != r
            invariant
                g <= seen@.len(),
                forall|h: int| 0 <= h < g ==> seen@[h] != r,
            decreases seen@.len() - g,
        {
            g += 1;
        }
        if g == seen.len() {
            seen.push(r);
            proof {
                leader = leader.push(i as int);
            }
        }
        group_of.push(g);
        i += 1;
    }
    let count: usize = seen.len();
    // The members and the size of each group.
    let mut lists_of: Vec<Vec<usize>> = Vec::new();
    let mut keys: Vec<SortKey> = Vec::new();
    let mut g: usize = 0;
    while g < count
        invariant
            g <= count,
            group_of@.len() == n,
            count == leader.len(),
            lists_of@.len() == g,
            keys@.len() == g,
            forall|h: int| 0 <= h < count
                ==> 0 <= (#[trigger] leader[h]) < n
                    && group_of@[leader[h]] == h,
            forall|x: int| 0 <= x < n ==> leader[(#[trigger] group_of@[x]) as int] <= x,
            forall|x: int| 0 <= x < n ==> (#[trigger] group_of@[x]) < count,
            forall|h: int| 0 <= h < g
                ==> is_list_of(group_of@, h, (#[trigger] lists_of@[h])@, leader[h]),
            forall|h: int| 0 <= h < g
                ==> (#[trigger] keys@[h]).major == lists_of@[h]@.len()
                    && keys@[h].minor@.len() == 0,
        decreases count - g,
    {
        let m = members_of(&group_of, g);
        proof {
            assert(lists(m@, leader[g as int]));
            let p = choose|p: int| lists_at(m@, leader[g as int], p);
            assert(m@[0] <= m@[p]);
            assert(leader[group_of@[m@[0] as int] as int] <= m@[0]);
        }
        keys.push(SortKey { major: m.len() as u128, minor: Vec::new() });
        lists_of.push(m);
        g += 1;
    }
    let order = rank_order(&keys);
    // The groups, largest first.
    let mut groups: Vec<ChangeGroup> = Vec::new();
    let ghost mut members: Seq<Seq<int>> = Seq::empty();
    let mut p: usize = 0;
    while p < count
        invariant
            p <= count,
            n == reviews@.len(),
            group_of@.len() == n,
            count == leader.len(),
            lists_of@.len() == count,
            order@.len() == count,
            forall|q: int| 0 <= q < count ==> (#[trigger] order@[q]) < count,
            forall|h: int| 0 <= h < count
                ==> is_list_of(group_of@, h, (#[trigger] lists_of@[h])@, leader[h]),
            groups@.len() == p,
            members.len() == p,
            forall|q: int| 0 <= q < p
                ==> (#[trigger] members[q]) == places(lists_of@[order@[q] as int]@),
            groups_match(
                review_ids(reviews@),
                review_names(reviews@),
                review_files(reviews@),
                members,
                groups@,
            ),
        decreases count - p,
    {
        let list = &lists_of[order[p]];
        let group = make_group(reviews, list, p);
        let ghost old_groups = groups@;
        let ghost old_members = members;
        groups.push(group);
        proof {
            members = members.push(places(list@));
            assert forall|q: int| 0 <= q < groups@.len() implies {
                &&& (#[trigger] groups@[q]).id == q
                &&& texts(groups@[q].entity_ids@) == members[q].map_values(
                    |i: int| review_ids(reviews@)[i],
                )
                &&& groups@[q].label@ == group_label(
                    review_names(reviews@),
                    review_files(reviews@),
                    members[q],
                )
            } by {
                if q < p {
                    assert(groups@[q] == old_groups[q]);
                    assert(members[q] == old_members[q]);
                }
            }
        }
        p += 1;
    }
    proof {
        assert forall|q: int| 0 <= q < count implies (#[trigger] keys@[q]).minor@
            == Seq::<char>::empty() by {
            assert(keys@[q].minor@ =~= Seq::<char>::empty());
        }
        lemma_grouping(idv, edv, root@, group_of@, leader, lists_of@, keys@, order@, members);
    }
    groups
}

/// `list` holds the reviews of group `g` in rising order, and begins with
/// `first`.
spec fn is_list_of(group_of: Seq<usize>, g: int, list: Seq<usize>, first: int) -> bool {
    &&& list.len() > 0
    &&& list[0] == first
    &&& forall|k: int| 0 <= k < list.len()
        ==> (#[trigger] list[k]) < group_of.len()
            && group_of[list[k] as int] == g
    &&& forall|k: int, l: int| 0 <= k < l < list.len() ==> list[k] < list[l]
    &&& forall|j: int| 0 <= j < group_of.len() && group_of[j] == g ==> #[trigger] lists(list, j)
}

/// The lists of the groups, taken in the order of their ranking, split the
/// reviews into their connected sets.
proof fn lemma_grouping(
    ids: Seq<Seq<char>>,
    edges: Seq<(Seq<char>, Seq<char>)>,
    root: Seq<usize>,
    group_of: Seq<usize>,
    leader: Seq<int>,
    lists_of: Seq<Vec<usize>>,
    keys: Seq<SortKey>,
    order: Seq<usize>,
    members: Seq<Seq<int>>,
)
    requires
        root.len() == ids.len(),
        group_of.len() == ids.len(),
        forall|a: int, b: int|
            0 <= a < ids.len() && 0 <= b < ids.len() ==> (root[a] == root[b] <==> connected(
                ids,
                edges,
                a,
                b,
            )),
        forall|x: int|
            0 <= x < ids.len() ==> (#[trigger] group_of[x]) < leader.len(),
        forall|x: int, y: int|
            0 <= x < ids.len() && 0 <= y < ids.len() ==> (group_of[x] == group_of[y] <==> root[x]
                == root[y]),
        forall|g: int, h: int| 0 <= g < h < leader.len() ==> leader[g] < leader[h],
        lists_of.len() == leader.len(),
        keys.len() == leader.len(),
        forall|h: int|
            0 <= h < leader.len() ==> is_list_of(group_of, h, (#[trigger] lists_of[h])@, leader[h]),
        forall|h: int|
            0 <= h < leader.len() ==> (#[trigger] keys[h]).major == lists_of[h]@.len()
                && keys[h].minor@ == Seq::<char>::empty(),
        is_ranking(crate::order::ranks(keys), order),
        members.len() == leader.len(),
        forall|q: int|
            0 <= q < leader.len() ==> (#[trigger] members[q]) == places(lists_of[order[q] as int]@),
    ensures
        is_grouping(ids, edges, members),
{
    let count = leader.len() as int;
    assert forall|g: int| 0 <= g < members.len() implies (#[trigger] members[g]).len() > 0 by {
        assert(is_list_of(group_of, order[g] as int, lists_of[order[g] as int]@, leader[order[g] as int]));
    }
    assert forall|g: int, k: int|
        0 <= g < members.len() && 0 <= k < members[g].len() implies 0 <= (#[trigger] members[g][k])
        < ids.len() by {
        let list = lists_of[order[g] as int]@;
        assert(is_list_of(group_of, order[g] as int, list, leader[order[g] as int]));
        assert(list[k] < group_of.len());
    }
    assert forall|g: int, k: int, l: int|
        0 <= g < members.len() && 0 <= k < l < members[g].len() implies (#[trigger] members[g][k])
        < (#[trigger] members[g][l]) by {
        let list = lists_of[order[g] as int]@;
        assert(is_list_of(group_of, order[g] as int, list, leader[order[g] as int]));
        assert(list[k] < list[l]);
    }
    assert forall|i: int| 0 <= i < ids.len() implies #[trigger] is_member(members, i) by {
        let h = group_of[i] as int;
        assert(lists(order, h));
        let q = choose|q: int| lists_at(order, h, q);
        let list = lists_of[h]@;
        assert(is_list_of(group_of, h, list, leader[h]));
        assert(lists(list, i));
        let k = choose|k: int| lists_at(list, i, k);
        assert(members[q] == places(lists_of[order[q] as int]@));
        assert(member_at(members, i, q, k));
    }
    assert forall|g: int, h: int, k: int, l: int|
        0 <= g < members.len() && 0 <= h < members.len() && 0 <= k < members[g].len() && 0 <= l
            < members[h].len() implies (g == h <==> connected(
        ids,
        edges,
        #[trigger] members[g][k],
        #[trigger] members[h][l],
    )) by {
        let lg = lists_of[order[g] as int]@;
        let lh = lists_of[order[h] as int]@;
        assert(is_list_of(group_of, order[g] as int, lg, leader[order[g] as int]));
        assert(is_list_of(group_of, order[h] as int, lh, leader[order[h] as int]));
        let x = lg[k] as int;
        let y = lh[l] as int;
        assert(group_of[x] == order[g]);
        assert(group_of[y] == order[h]);
        assert(group_of[x] == group_of[y] <==> root[x] == root[y]);
        if g != h {
            if g < h {
                assert(order[g] != order[h]);
            } else {
                assert(order[h] != order[g]);
            }
        }
    }
    assert forall|g: int, h: int| 0 <= g < h < members.len() implies (#[trigger] members[g]).len()
        > (#[trigger] members[h]).len() || (members[g].len() == members[h].len() && members[g][0]
        < members[h][0]) by {
        let og = order[g] as int;
        let oh = order[h] as int;
        let kv = crate::order::ranks(keys);
        assert(crate::order::key_before(kv, og, oh));
        assert(is_list_of(group_of, og, lists_of[og]@, leader[og]));
        assert(is_list_of(group_of, oh, lists_of[oh]@, leader[oh]));
        assert(kv[og].1 == kv[oh].1);
        if kv[og].0 == kv[oh].0 {
            assert(!crate::order::lex_less(kv[og].1, kv[oh].1)) by {
                if crate::order::lex_less(kv[og].1, kv[oh].1) {
                    crate::order::lemma_lex_asymmetric(kv[og].1, kv[oh].1);
                }
            }
            assert(og < oh);
        }
    }
}

/// Every review is linked to itself.
pub proof fn lemma_joined_reflexive(
    ids: Seq<Seq<char>>,
    edges: Seq<(Seq<char>, Seq<char>)>,
    k: int,
    i: int,
)
    ensures
        joined(ids, edges, k, i, i),
    decreases k,
{
    if k > 0 {
        lemma_joined_reflexive(ids, edges, k - 1, i);
    }
}

/// Where no two reviews carry one id, every id in the groups is the id of a
/// review and stands at one place of one group only.
pub proof fn lemma_each_id_is_in_one_group(
    reviews: Seq<EntityReview>,
    edges: Seq<(Seq<char>, Seq<char>)>,
    members: Seq<Seq<int>>,
    groups: Seq<ChangeGroup>,
    g: int,
    k: int,
)
    requires
        is_grouping(review_ids(reviews), edges, members),
        groups_match(
            review_ids(reviews),
            review_names(reviews),
            review_files(reviews),
            members,
            groups,
        ),
        forall|i: int, j: int|
            0 <= i < j < reviews.len() ==> reviews[i].entity_id@ != reviews[j].entity_id@,
        0 <= g < groups.len(),
        0 <= k < groups[g].entity_ids@.len(),
    ensures
        exists|i: int|
            0 <= i < reviews.len() && (#[trigger] reviews[i]).entity_id@
                == groups[g].entity_ids@[k]@,
        forall|h: int, l: int|
            0 <= h < groups.len() && 0 <= l < groups[h].entity_ids@.len()
                && (#[trigger] groups[h].entity_ids@[l])@ == groups[g].entity_ids@[k]@ ==> h == g
                && l == k,
{
    let ids = review_ids(reviews);
    assert(groups[g].id == g);
    assert(texts(groups[g].entity_ids@).len() == members[g].len());
    assert(texts(groups[g].entity_ids@)[k] == groups[g].entity_ids@[k]@);
    let i = members[g][k];
    assert(0 <= i < ids.len());
    assert(ids[i] == reviews[i].entity_id@);
    assert(reviews[i].entity_id@ == groups[g].entity_ids@[k]@);
    assert forall|h: int, l: int|
        0 <= h < groups.len() && 0 <= l < groups[h].entity_ids@.len()
            && (#[trigger] groups[h].entity_ids@[l])@ == groups[g].entity_ids@[k]@ implies h == g
        && l == k by {
        assert(groups[h].id == h);
        assert(texts(groups[h].entity_ids@).len() == members[h].len());
        assert(texts(groups[h].entity_ids@)[l] == groups[h].entity_ids@[l]@);
        let j = members[h][l];
        assert(0 <= j < ids.len());
        assert(ids[j] == reviews[j].entity_id@);
        if i < j {
            assert(reviews[i].entity_id@ != reviews[j].entity_id@);
        }
        if j < i {
            assert(reviews[j].entity_id@ != reviews[i].entity_id@);
        }
        assert(i == j);
        lemma_joined_reflexive(ids, edges, edges.len() as int, i);
        assert(connected(ids, edges, members[g][k], members[h][l]));
        assert(g == h);
        if l < k {
            assert(members[g][l] < members[g][k]);
        }
        if k < l {
            assert(members[g][k] < members[g][l]);
        }
    }
}

} // verus!
