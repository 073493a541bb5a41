//! Disjoint sets over the indices `0..n`, with path compression and union
//! by rank.

use vstd::prelude::*;
use vstd::set_lib::{lemma_int_range, lemma_len_subset, set_int_range};

verus! {

/// A partition of `0..n` into disjoint sets, each known by one of its
/// members, its root.
pub struct UnionFind {
    parent: Vec<usize>,
    rank: Vec<usize>,
    /// The root of the set of each index.
    root: Ghost<Seq<int>>,
    /// A measure that grows along every parent link.
    height: Ghost<Seq<nat>>,
    /// No height is above this.
    bound: Ghost<nat>,
}

impl UnionFind {
    /// The members of the set whose root is `r`.
    spec fn class(&self, r: int) -> Set<int> {
        Set::new(|i: int| 0 <= i < self.root@.len() && self.root@[i] == r)
    }

    /// How many indices the structure partitions.
    pub closed spec fn size(&self) -> nat {
        self.parent@.len()
    }

    /// The root of the set that holds `i`.
    pub closed spec fn root_of(&self, i: int) -> int {
        self.root@[i]
    }

    /// Whether `i` and `j` are in one set.
    pub open spec fn same(&self, i: int, j: int) -> bool {
        self.root_of(i) == self.root_of(j)
    }

    /// The structure is a forest whose trees are the sets.
    pub closed spec fn wf(&self) -> bool {
        let n = self.parent@.len();
        &&& self.rank@.len() == n
        &&& self.root@.len() == n
        &&& self.height@.len() == n
        &&& forall|i: int| 0 <= i < n ==> (#[trigger] self.parent@[i]) < n
        &&& forall|i: int| 0 <= i < n ==> 0 <= (#[trigger] self.root@[i]) < n
        &&& forall|i: int|
            0 <= i < n ==> self.root@[(#[trigger] self.parent@[i]) as int] == self.root@[i]
        &&& forall|i: int|
            0 <= i < n ==> self.parent@[(#[trigger] self.root@[i])] == self.root@[i]
        &&& forall|i: int| 0 <= i < n && (#[trigger] self.parent@[i]) == i ==> self.root@[i] == i
        &&& forall|i: int|
            0 <= i < n && (#[trigger] self.parent@[i]) != i ==> self.height@[self.parent@[i] as int]
                > self.height@[i]
        &&& forall|i: int| 0 <= i < n ==> (#[trigger] self.height@[i]) <= self.bound@
        &&& forall|i: int|
            0 <= i < n && (#[trigger] self.parent@[i]) == i ==> self.rank@[i] < self.class(i).len()
    }

    /// The set of a root lies within `0..n`.
    proof fn lemma_class_bound(&self, r: int)
        ensures
            self.class(r).finite(),
            self.class(r).len() <= self.root@.len(),
    {
        let n = self.root@.len() as int;
        lemma_int_range(0, n);
        assert(self.class(r).subset_of(set_int_range(0, n)));
        lemma_len_subset(self.class(r), set_int_range(0, n));
    }

    /// `n` sets of one index each.
    pub fn new(n: usize) -> (uf: Self)
        ensures
            uf.wf(),
            uf.size() == n,
            forall|i: int| 0 <= i < n ==> uf.root_of(i) == i,
    {
        let mut parent: Vec<usize> = Vec::new();
        let mut rank: Vec<usize> = Vec::new();
        let mut i: usize = 0;
        while i < n
            invariant
                i <= n,
                parent@.len() == i,
                rank@.len() == i,
                forall|j: int| 0 <= j < i ==> parent@[j] == j,
                forall|j: int| 0 <= j < i ==> rank@[j] == 0,
            decreases n - i,
        {
            parent.push(i);
            rank.push(0);
            i += 1;
        }
        let uf = UnionFind {
            parent,
            rank,
            root: Ghost(Seq::new(n as nat, |j: int| j)),
            height: Ghost(Seq::new(n as nat, |j: int| 0nat)),
            bound: Ghost(0nat),
        };
        proof {
            assert forall|j: int| 0 <= j < n && (#[trigger] uf.parent@[j]) == j implies uf.rank@[j]
                < uf.class(j).len() by {
                uf.lemma_class_bound(j);
                assert(uf.class(j).contains(j));
                assert(uf.class(j).len() > 0);
            }
        }
        uf
    }

    /// The root of the set of `x`; the links on the way are shortened.
    fn compress(&mut self, x: usize) -> (r: usize)
        requires
            old(self).wf(),
            x < old(self).size(),
        ensures
            final(self).wf(),
            final(self).root@ == old(self).root@,
            final(self).height@ == old(self).height@,
            final(self).bound@ == old(self).bound@,
            final(self).rank@ == old(self).rank@,
            final(self).parent@.len() == old(self).parent@.len(),
            r == old(self).root@[x as int],
            old(self).height@[r as int] >= old(self).height@[x as int],
        decreases old(self).bound@ - old(self).height@[x as int],
    {
        let p = self.parent[x];
        if p != x {
            let r = self.compress(p);
            let ghost before = *self;
            self.parent.set(x, r);
            proof {
                assert(self.root@[x as int] == r);
                assert(before.parent@[r as int] == r);
                assert forall|i: int| 0 <= i < self.parent@.len() && (#[trigger] self.parent@[i])
                    == i implies self.rank@[i] < self.class(i).len() by {
                    assert(before.parent@[i] == i);
                    assert(self.class(i) =~= before.class(i));
                }
            }
            r
        } else {
            x
        }
    }

    /// The root of the set that holds `x`. The sets stay as they are.
    pub fn find(&mut self, x: usize) -> (r: usize)
        requires
            old(self).wf(),
            x < old(self).size(),
        ensures
            final(self).wf(),
            final(self).size() == old(self).size(),
            forall|i: int| final(self).root_of(i) == old(self).root_of(i),
            r == old(self).root_of(x as int),
            r < old(self).size(),
    {
        self.compress(x)
    }

    /// Joins the sets of `a` and `b` into one.
    pub fn union(&mut self, a: usize, b: usize)
        requires
            old(self).wf(),
            a < old(self).size(),
            b < old(self).size(),
        ensures
            final(self).wf(),
            final(self).size() == old(self).size(),
            forall|i: int, j: int|
                0 <= i < old(self).size() && 0 <= j < old(self).size() ==> (#[trigger] final(self).same(i, j)
                    <==> old(self).same(i, j)
                    || (old(self).same(i, a as int) && old(self).same(j, b as int))
                    || (old(self).same(i, b as int) && old(self).same(j, a as int))),
    {
        let ra = self.find(a);
        let rb = self.find(b);
        if ra == rb {
            return ;
        }
        if self.rank[ra] < self.rank[rb] {
            self.link(ra, rb);
        } else if self.rank[ra] > self.rank[rb] {
            self.link(rb, ra);
        } else {
            let n: usize = self.parent.len();
            proof {
                self.lemma_class_bound(ra as int);
            }
            self.link(rb, ra);
            assert(self.rank@[ra as int] < n);
            let grown: usize = self.rank[ra] + 1;
            let ghost before = *self;
            self.rank.set(ra, grown);
            proof {
                assert forall|i: int| 0 <= i < self.parent@.len() && (#[trigger] self.parent@[i])
                    == i implies self.rank@[i] < self.class(i).len() by {
                    assert(self.class(i) =~= before.class(i));
                }
            }
        }
    }

    /// Hangs the root `child` under the root `top`.
    fn link(&mut self, child: usize, top: usize)
        requires
            old(self).wf(),
            child < old(self).size(),
            top < old(self).size(),
            child != top,
            old(self).root@[child as int] == child,
            old(self).root@[top as int] == top,
        ensures
            final(self).parent@.len() == old(self).parent@.len(),
            final(self).rank@ == old(self).rank@,
            final(self).root@ == Seq::new(
                old(self).root@.len(),
                |i: int|
                    if old(self).root@[i] == child {
                        top as int
                    } else {
                        old(self).root@[i]
                    },
            ),
            final(self).wf_but_rank(),
            final(self).parent@[top as int] == top,
            forall|i: int|
                0 <= i < final(self).parent@.len() && (#[trigger] final(self).parent@[i]) == i && i
                    != top ==> final(self).rank@[i] < final(self).class(i).len(),
            final(self).class(top as int).len() > old(self).class(top as int).len(),
            final(self).rank@[top as int] < old(self).class(top as int).len(),
    {
        let ghost before = *self;
        self.parent.set(child, top);
        proof {
            let n = before.root@.len();
            let taller = if before.height@[top as int] > before.height@[child as int] {
                before.height@[top as int]
            } else {
                before.height@[child as int] + 1
            };
            self.root = Ghost(
                Seq::new(
                    n,
                    |i: int|
                        if before.root@[i] == child {
                            top as int
                        } else {
                            before.root@[i]
                        },
                ),
            );
            self.height = Ghost(before.height@.update(top as int, taller));
            self.bound = Ghost(
                if before.bound@ >= taller {
                    before.bound@
                } else {
                    taller
                },
            );
            assert(before.parent@[child as int] == child);
            assert(before.parent@[top as int] == top);
            assert forall|i: int| 0 <= i < n implies self.root@[(#[trigger] self.parent@[i]) as int]
                == self.root@[i] by {
                if i != child {
                    assert(before.root@[before.parent@[i] as int] == before.root@[i]);
                }
            }
            assert forall|i: int| 0 <= i < n implies self.parent@[(#[trigger] self.root@[i])]
                == self.root@[i] by {
                assert(before.parent@[before.root@[i]] == before.root@[i]);
            }
            assert forall|i: int| 0 <= i < n && (#[trigger] self.parent@[i]) != i
                implies self.height@[self.parent@[i] as int]
                > self.height@[i] by {
                if i != child {
                    assert(before.parent@[i] != i);
                    assert(before.height@[before.parent@[i] as int] > before.height@[i]);
                }
            }
            before.lemma_class_bound(top as int);
            before.lemma_class_bound(child as int);
            assert(before.class(child as int).contains(child as int));
            assert(before.class(child as int).len() > 0);
            assert(before.class(top as int).disjoint(before.class(child as int)));
            assert(self.class(top as int) =~= before.class(top as int) + before.class(
                child as int,
            ));
            vstd::set_lib::lemma_set_disjoint_lens(
                before.class(top as int),
                before.class(child as int),
            );
            assert forall|i: int|
                0 <= i < self.parent@.len() && (#[trigger] self.parent@[i]) == i && i
                    != top implies self.rank@[i] < self.class(i).len() by {
                assert(before.parent@[i] == i);
                assert(self.class(i) =~= before.class(i));
            }
        }
    }

    /// All of `wf` but the bound on the ranks.
    spec fn wf_but_rank(&self) -> bool {
        let n = self.parent@.len();
        &&& self.rank@.len() == n
        &&& self.root@.len() == n
        &&& self.height@.len() == n
        &&& forall|i: int| 0 <= i < n ==> (#[trigger] self.parent@[i]) < n
        &&& forall|i: int| 0 <= i < n ==> 0 <= (#[trigger] self.root@[i]) < n
        &&& forall|i: int|
            0 <= i < n ==> self.root@[(#[trigger] self.parent@[i]) as int] == self.root@[i]
        &&& forall|i: int|
            0 <= i < n ==> self.parent@[(#[trigger] self.root@[i])] == self.root@[i]
        &&& forall|i: int| 0 <= i < n && (#[trigger] self.parent@[i]) == i ==> self.root@[i] == i
        &&& forall|i: int|
            0 <= i < n && (#[trigger] self.parent@[i]) != i ==> self.height@[self.parent@[i] as int]
                > self.height@[i]
        &&& forall|i: int| 0 <= i < n ==> (#[trigger] self.height@[i]) <= self.bound@
    }
}

} // verus!
