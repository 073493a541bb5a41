//! A total order on ranked items: by falling number, then by rising text,
//! then by position.

use vstd::prelude::*;

verus! {

/// `a` and `b` agree on their first `k` characters, and there `a` ends while
/// `b` goes on, or `a` holds the smaller character.
pub open spec fn less_at(a: Seq<char>, b: Seq<char>, k: int) -> bool {
    &&& 0 <= k <= a.len()
    &&& k <= b.len()
    &&& a.subrange(0, k) == b.subrange(0, k)
    &&& (k == a.len() && k < b.len()) || (k < a.len() && k < b.len() && a[k] < b[k])
}

/// `a` comes before `b` in the lexicographic order of their characters.
pub open spec fn lex_less(a: Seq<char>, b: Seq<char>) -> bool {
    exists|k: int| less_at(a, b, k)
}

/// What ranks an item: a number and a text.
pub struct SortKey {
    pub major: u128,
    pub minor: Vec<char>,
}

/// The number and the text of each key.
pub open spec fn ranks(keys: Seq<SortKey>) -> Seq<(nat, Seq<char>)> {
    keys.map_values(|k: SortKey| (k.major as nat, k.minor@))
}

/// The item at `i` comes before the item at `j`: it has the larger number,
/// or the same number and the smaller text, or the same of both and the
/// smaller index.
pub open spec fn key_before(keys: Seq<(nat, Seq<char>)>, i: int, j: int) -> bool {
    keys[i].0 > keys[j].0 || (keys[i].0 == keys[j].0 && (lex_less(keys[i].1, keys[j].1) || (
    keys[i].1 == keys[j].1 && i < j)))
}

/// `order` holds the index `g` at position `p`.
pub open spec fn lists_at(order: Seq<usize>, g: int, p: int) -> bool {
    0 <= p < order.len() && order[p] == g
}

/// `order` holds the index `g`.
pub open spec fn lists(order: Seq<usize>, g: int) -> bool {
    exists|p: int| lists_at(order, g, p)
}

/// `order` lists each index below `n` once.
pub open spec fn is_arrangement(order: Seq<usize>, n: int) -> bool {
    &&& order.len() == n
    &&& forall|p: int| 0 <= p < n ==> 0 <= (#[trigger] order[p]) < n
    &&& forall|p: int, q: int| 0 <= p < q < n ==> order[p] != order[q]
    &&& forall|g: int| 0 <= g < n ==> #[trigger] lists(order, g)
}

/// `order` lists the indices of `keys`, each once, every one before all
/// that follow it.
pub open spec fn is_ranking(keys: Seq<(nat, Seq<char>)>, order: Seq<usize>) -> bool {
    &&& is_arrangement(order, keys.len() as int)
    &&& forall|p: int, q: int|
        0 <= p < q < order.len() ==> key_before(keys, order[p] as int, order[q] as int)
}

/// No text comes before itself, and of two texts at most one comes before
/// the other.
pub proof fn lemma_lex_asymmetric(a: Seq<char>, b: Seq<char>)
    requires
        lex_less(a, b),
    ensures
        !lex_less(b, a),
        a != b,
{
    let k = choose|k: int| less_at(a, b, k);
    if lex_less(b, a) {
        let m = choose|m: int| less_at(b, a, m);
        if m < k {
            assert(a.subrange(0, k)[m] == b.subrange(0, k)[m]);
        } else if k < m {
            assert(a.subrange(0, m)[k] == b.subrange(0, m)[k]);
        }
    }
}

/// The lexicographic order is transitive.
pub proof fn lemma_lex_transitive(a: Seq<char>, b: Seq<char>, c: Seq<char>)
    requires
        lex_less(a, b),
        lex_less(b, c),
    ensures
        lex_less(a, c),
{
    let k = choose|k: int| less_at(a, b, k);
    let m = choose|m: int| less_at(b, c, m);
    if k <= m {
        assert(a.subrange(0, k) =~= c.subrange(0, k)) by {
            assert forall|x: int| 0 <= x < k implies a[x] == c[x] by {
                assert(a.subrange(0, k)[x] == b.subrange(0, k)[x]);
                assert(b.subrange(0, m)[x] == c.subrange(0, m)[x]);
            }
        }
        if k < m {
            if k < b.len() {
                assert(b.subrange(0, m)[k] == c.subrange(0, m)[k]);
            }
        }
        assert(less_at(a, c, k));
    } else {
        assert(a.subrange(0, m) =~= c.subrange(0, m)) by {
            assert forall|x: int| 0 <= x < m implies a[x] == c[x] by {
                assert(a.subrange(0, k)[x] == b.subrange(0, k)[x]);
                assert(b.subrange(0, m)[x] == c.subrange(0, m)[x]);
            }
        }
        assert(a.subrange(0, k)[m] == b.subrange(0, k)[m]);
        assert(less_at(a, c, m));
    }
}

/// The order of ranked items is transitive.
pub proof fn lemma_key_transitive(keys: Seq<(nat, Seq<char>)>, i: int, j: int, k: int)
    requires
        key_before(keys, i, j),
        key_before(keys, j, k),
    ensures
        key_before(keys, i, k),
{
    if keys[i].0 == keys[j].0 && keys[j].0 == keys[k].0 {
        if lex_less(keys[i].1, keys[j].1) && lex_less(keys[j].1, keys[k].1) {
            lemma_lex_transitive(keys[i].1, keys[j].1, keys[k].1);
        }
    }
}

/// Of two ranked items at most one comes before the other.
pub proof fn lemma_key_asymmetric(keys: Seq<(nat, Seq<char>)>, i: int, j: int)
    requires
        key_before(keys, i, j),
    ensures
        !key_before(keys, j, i),
{
    if keys[i].0 == keys[j].0 {
        if lex_less(keys[i].1, keys[j].1) {
            lemma_lex_asymmetric(keys[i].1, keys[j].1);
        }
        if lex_less(keys[j].1, keys[i].1) {
            lemma_lex_asymmetric(keys[j].1, keys[i].1);
        }
    }
}

/// Two rankings of the same items agree on their first `n` places.
proof fn lemma_rankings_agree(
    keys: Seq<(nat, Seq<char>)>,
    first: Seq<usize>,
    second: Seq<usize>,
    n: int,
)
    requires
        is_ranking(keys, first),
        is_ranking(keys, second),
        0 <= n <= keys.len(),
    ensures
        forall|p: int| 0 <= p < n ==> first[p] == second[p],
    decreases n,
{
    if n > 0 {
        lemma_rankings_agree(keys, first, second, n - 1);
        let p = n - 1;
        let x = first[p] as int;
        let y = second[p] as int;
        if x != y {
            assert(lists(second, x));
            let q = choose|q: int| lists_at(second, x, q);
            if q < p {
                assert(first[q] == second[q]);
            }
            assert(q > p);
            assert(key_before(keys, y, x));
            assert(lists(first, y));
            let r = choose|r: int| lists_at(first, y, r);
            if r < p {
                assert(first[r] == second[r]);
            }
            assert(r > p);
            assert(key_before(keys, x, y));
            lemma_key_asymmetric(keys, x, y);
        }
    }
}

/// The same items have one ranking only.
pub proof fn lemma_ranking_is_unique(
    keys: Seq<(nat, Seq<char>)>,
    first: Seq<usize>,
    second: Seq<usize>,
)
    requires
        is_ranking(keys, first),
        is_ranking(keys, second),
    ensures
        first == second,
{
    lemma_rankings_agree(keys, first, second, keys.len() as int);
    assert(first =~= second);
}

/// How one text stands to another.
#[derive(Debug, Clone, Copy, PartialEq, Eq, Structural)]
pub enum Precedence {
    Before,
    Same,
    After,
}

/// Compares two texts character by character.
pub fn lex_compare(a: &[char], b: &[char]) -> (r: Precedence)
    ensures
        r == Precedence::Before <==> lex_less(a@, b@),
        r == Precedence::Same <==> a@ == b@,
        r == Precedence::After <==> lex_less(b@, a@),
{
    let na: usize = a.len();
    let nb: usize = b.len();
    let mut k: usize = 0;
    while k < na && k < nb
        invariant
            k <= na,
            k <= nb,
            na == a@.len(),
            nb == b@.len(),
            a@.subrange(0, k as int) == b@.subrange(0, k as int),
        decreases na - k,
    {
        let x: char = a[k];
        let y: char = b[k];
        if x < y {
            assert(less_at(a@, b@, k as int));
            proof {
                lemma_lex_asymmetric(a@, b@);
            }
            return Precedence::Before;
        }
        if y < x {
            assert(less_at(b@, a@, k as int));
            proof {
                lemma_lex_asymmetric(b@, a@);
            }
            return Precedence::After;
        }
        assert(a@[k as int] == b@[k as int]);
        assert(a@.subrange(0, k + 1) =~= a@.subrange(0, k as int).push(a@[k as int]));
        assert(b@.subrange(0, k + 1) =~= b@.subrange(0, k as int).push(b@[k as int]));
        k += 1;
    }
    if na < nb {
        assert(less_at(a@, b@, k as int));
        proof {
            lemma_lex_asymmetric(a@, b@);
        }
        Precedence::Before
    } else if nb < na {
        assert(less_at(b@, a@, k as int));
        proof {
            lemma_lex_asymmetric(b@, a@);
        }
        Precedence::After
    } else {
        assert(a@ =~= a@.subrange(0, k as int));
        assert(b@ =~= b@.subrange(0, k as int));
        assert(!lex_less(a@, b@)) by {
            if lex_less(a@, b@) {
                lemma_lex_asymmetric(a@, b@);
            }
        }
        Precedence::Same
    }
}

/// Whether the item at `i` comes before the item at `j`. Of two items at
/// different indices one comes before the other.
pub fn precedes(keys: &Vec<SortKey>, i: usize, j: usize) -> (r: bool)
    requires
        i < keys@.len(),
        j < keys@.len(),
    ensures
        r == key_before(ranks(keys@), i as int, j as int),
        !r && i != j ==> key_before(ranks(keys@), j as int, i as int),
{
    if keys[i].major > keys[j].major {
        return true;
    }
    if keys[i].major < keys[j].major {
        return false;
    }
    match lex_compare(keys[i].minor.as_slice(), keys[j].minor.as_slice()) {
        Precedence::Before => true,
        Precedence::After => false,
        Precedence::Same => i < j,
    }
}

/// The indices of `keys` from the first-ranked item to the last.
pub fn rank_order(keys: &Vec<SortKey>) -> (order: Vec<usize>)
    ensures
        is_ranking(ranks(keys@), order@),
{
    let n: usize = keys.len();
    let ghost kv = ranks(keys@);
    let mut order: Vec<usize> = Vec::new();
    let mut i: usize = 0;
    while i < n
        invariant
            i <= n,
            n == keys@.len(),
            kv == ranks(keys@),
            order@.len() == i,
            forall|p: int| 0 <= p < i ==> 0 <= (#[trigger] order@[p]) < i,
            forall|p: int, q: int| 0 <= p < q < i ==> order@[p] != order@[q],
            forall|g: int| 0 <= g < i ==> #[trigger] lists(order@, g),
            forall|p: int, q: int|
                0 <= p < q < i ==> key_before(kv, order@[p] as int, order@[q] as int),
        decreases n - i,
    {
        let mut pos: usize = i;
        while pos > 0 && precedes(keys, i, order[pos - 1])
            invariant
                pos <= i,
                i < n,
                n == keys@.len(),
                kv == ranks(keys@),
                order@.len() == i,
                forall|p: int| 0 <= p < i ==> 0 <= (#[trigger] order@[p]) < i,
                forall|q: int|
                    pos <= q < i ==> key_before(kv, i as int, (#[trigger] order@[q]) as int),
            decreases pos,
        {
            pos -= 1;
        }
        let ghost old_order = order@;
        proof {
            if pos > 0 {
                let last = old_order[pos - 1] as int;
                assert(0 <= last < i);
                assert(key_before(kv, last, i as int));
                assert forall|p: int| 0 <= p < pos implies key_before(
                    kv,
                    (#[trigger] old_order[p]) as int,
                    i as int,
                ) by {
                    if p < pos - 1 {
                        lemma_key_transitive(kv, old_order[p] as int, last, i as int);
                    }
                }
            }
        }
        order.insert(pos, i);
        proof {
            assert forall|p: int| 0 <= p < i + 1 implies 0 <= (#[trigger] order@[p]) < i + 1 by {
                if p < pos {
                    assert(order@[p] == old_order[p]);
                } else if p > pos {
                    assert(order@[p] == old_order[p - 1]);
                }
            }
            assert forall|g: int| 0 <= g < i + 1 implies #[trigger] lists(order@, g) by {
                if g < i {
                    assert(lists(old_order, g));
                    let p = choose|p: int| lists_at(old_order, g, p);
                    if p < pos {
                        assert(lists_at(order@, g, p));
                    } else {
                        assert(order@[p + 1] == old_order[p]);
                        assert(lists_at(order@, g, p + 1));
                    }
                } else {
                    assert(lists_at(order@, g, pos as int));
                }
            }
            assert forall|p: int, q: int| 0 <= p < q < i + 1 implies order@[p] != order@[q]
                && key_before(kv, order@[p] as int, order@[q] as int) by {
                let op = if p < pos {
                    p
                } else {
                    p - 1
                };
                let oq = if q < pos {
                    q
                } else {
                    q - 1
                };
                if p != pos {
                    assert(order@[p] == old_order[op]);
                }
                if q != pos {
                    assert(order@[q] == old_order[oq]);
                }
            }
        }
        i += 1;
    }
    order
}

} // verus!
