//! Stable ordering of items by an integer key, as `sort_by_key` orders them:
//! by key, and items with equal keys in the order in which they came.
use vstd::prelude::*;

verus! {

/// A sort key: compared component by component.
pub type Key = (u64, u64, u64);

/// Key `a` comes strictly before key `b`.
pub open spec fn key_lt(a: Key, b: Key) -> bool {
    a.0 < b.0 || (a.0 == b.0 && (a.1 < b.1 || (a.1 == b.1 && a.2 < b.2)))
}

/// Item `a` comes before item `b` in a stable sort by `keys`: its key is
/// smaller, or the keys are equal and it came first.
pub open spec fn sorts_before(keys: Seq<Key>, a: int, b: int) -> bool {
    key_lt(keys[a], keys[b]) || (keys[a] == keys[b] && a < b)
}

/// `order` lists every position of `keys` once, in stable sorted order.
pub open spec fn is_stable_order(keys: Seq<Key>, order: Seq<usize>) -> bool {
    &&& order.len() == keys.len()
    &&& forall|i: int| 0 <= i < order.len() ==> order[i] < keys.len()
    &&& forall|k: usize| (k as int) < keys.len() ==> #[trigger] order.contains(k)
    &&& forall|i: int, j: int| 0 <= i < j < order.len() ==> sorts_before(keys, order[i] as int, order[j] as int)
}

/// The stable sorted order of positions of `keys` (there is exactly one,
/// see `law_stable_order_unique`).
pub open spec fn stable_order_spec(keys: Seq<Key>) -> Seq<usize> {
    choose|o: Seq<usize>| is_stable_order(keys, o)
}

proof fn lemma_orders_agree(keys: Seq<Key>, o1: Seq<usize>, o2: Seq<usize>, p: int)
    requires
        is_stable_order(keys, o1),
        is_stable_order(keys, o2),
        0 <= p <= o1.len(),
    ensures
        forall|i: int| 0 <= i < p ==> o1[i] == o2[i],
    decreases p,
{
    if p > 0 {
        lemma_orders_agree(keys, o1, o2, p - 1);
        let q = p - 1;
        let a = o1[q];
        let b = o2[q];
        if a != b {
            assert(o2.contains(a));
            assert(o1.contains(b));
            let qa = choose|i: int| 0 <= i < o2.len() && o2[i] == a;
            let qb = choose|i: int| 0 <= i < o1.len() && o1[i] == b;
            assert(0 <= qa < o2.len() && o2[qa] == a);
            assert(0 <= qb < o1.len() && o1[qb] == b);
            if qa < q {
                assert(o1[qa] == o2[qa]);
                assert(sorts_before(keys, o1[qa] as int, o1[q] as int));
            } else {
                assert(qa != q);
                assert(sorts_before(keys, b as int, a as int));
                if qb < q {
                    assert(o1[qb] == o2[qb]);
                    assert(sorts_before(keys, o2[qb] as int, o2[q] as int));
                } else {
                    assert(qb != q);
                    assert(sorts_before(keys, a as int, b as int));
                }
            }
        }
    }
}

/// There is exactly one stable sorted order of a list of keys.
pub proof fn law_stable_order_unique(keys: Seq<Key>, o1: Seq<usize>, o2: Seq<usize>)
    requires
        is_stable_order(keys, o1),
        is_stable_order(keys, o2),
    ensures
        o1 == o2,
{
    lemma_orders_agree(keys, o1, o2, o1.len() as int);
    assert(o1 =~= o2);
}

/// Computes the stable sorted order of positions of `keys`.
pub fn stable_order(keys: &Vec<Key>) -> (order: Vec<usize>)
    ensures
        is_stable_order(keys@, order@),
        order@ == stable_order_spec(keys@),
{
    let n = keys.len();
    let mut order: Vec<usize> = Vec::new();
    let mut i: usize = 0;
    while i < n
        invariant
            n == keys@.len(),
            i <= n,
            order@.len() == i,
            forall|a: int| 0 <= a < order@.len() ==> order@[a] < i,
            forall|k: usize| k < i ==> #[trigger] order@.contains(k),
            forall|a: int, b: int| 0 <= a < b < order@.len() ==> sorts_before(keys@, order@[a] as int, order@[b] as int),
        decreases n - i,
    {
        let ki = keys[i];
        let mut p: usize = 0;
        while p < order.len()
            invariant
                i < n,
                n == keys@.len(),
                ki == keys@[i as int],
                p <= order@.len(),
                forall|a: int| 0 <= a < order@.len() ==> order@[a] < i,
                forall|a: int| 0 <= a < p ==> !key_lt(ki, keys@[order@[a] as int]),
                forall|a: int, b: int| 0 <= a < b < order@.len() ==> sorts_before(keys@, order@[a] as int, order@[b] as int),
            ensures
                p <= order@.len(),
                forall|a: int| 0 <= a < p ==> !key_lt(ki, keys@[order@[a] as int]),
                p < order@.len() ==> key_lt(ki, keys@[order@[p as int] as int]),
            decreases order@.len() - p,
        {
            let kp = keys[order[p]];
            if ki.0 < kp.0 || (ki.0 == kp.0 && (ki.1 < kp.1 || (ki.1 == kp.1 && ki.2 < kp.2))) {
                break;
            }
            p += 1;
        }
        let ghost old_order = order@;
        proof {
            // everything from p on sorts after the new item
            assert forall|a: int| p <= a < old_order.len() implies key_lt(ki, keys@[old_order[a] as int]) by {
                if p < old_order.len() {
                    assert(key_lt(ki, keys@[old_order[p as int] as int]));
                    if a > p {
                        assert(sorts_before(keys@, old_order[p as int] as int, old_order[a] as int));
                    }
                }
            }
        }
        order.insert(p, i);
        proof {
            assert forall|k: usize| k < i + 1 implies #[trigger] order@.contains(k) by {
                if k == i {
                    assert(order@[p as int] == k);
                } else {
                    assert(old_order.contains(k));
                    let a = choose|a: int| 0 <= a < old_order.len() && old_order[a] == k;
                    if a < p {
                        assert(order@[a] == k);
                    } else {
                        assert(order@[a + 1] == k);
                    }
                }
            }
            assert forall|a: int, b: int| 0 <= a < b < order@.len() implies sorts_before(keys@, order@[a] as int, order@[b] as int) by {
                if a < p && b < p {
                    assert(order@[a] == old_order[a] && order@[b] == old_order[b]);
                } else if a < p && b == p {
                    assert(!key_lt(ki, keys@[old_order[a] as int]));
                } else if a < p && b > p {
                    assert(order@[a] == old_order[a] && order@[b] == old_order[b - 1]);
                } else if a == p {
                    assert(key_lt(ki, keys@[old_order[b - 1] as int]));
                } else {
                    assert(order@[a] == old_order[a - 1] && order@[b] == old_order[b - 1]);
                }
            }
        }
        i += 1;
    }
    proof {
        law_stable_order_unique(keys@, order@, stable_order_spec(keys@));
    }
    order
}

} // verus!

verus! {

/// The positions `0..n`, in order.
pub open spec fn positions(n: nat) -> Seq<usize> {
    Seq::new(n, |k: int| k as usize)
}

/// The items of `s` rearranged into the stable sorted order of `keys`
/// (one key per item).
pub open spec fn reorder(s: Seq<usize>, keys: Seq<Key>) -> Seq<usize> {
    stable_order_spec(keys).map_values(|j: usize| s[j as int])
}

/// Rearranges `s` into the stable sorted order of `keys`.
pub fn reorder_by(s: &Vec<usize>, keys: &Vec<Key>) -> (r: Vec<usize>)
    requires
        s@.len() == keys@.len(),
    ensures
        r@ == reorder(s@, keys@),
        r@.len() == s@.len(),
        forall|k: int| 0 <= k < r@.len() ==> s@.contains(#[trigger] r@[k]),
{
    let order = stable_order(keys);
    let mut r: Vec<usize> = Vec::new();
    let mut i: usize = 0;
    while i < order.len()
        invariant
            is_stable_order(keys@, order@),
            order@ == stable_order_spec(keys@),
            s@.len() == keys@.len(),
            i <= order@.len(),
            r@ == order@.take(i as int).map_values(|j: usize| s@[j as int]),
            forall|k: int| 0 <= k < r@.len() ==> s@.contains(#[trigger] r@[k]),
        decreases order@.len() - i,
    {
        let j = order[i];
        assert(s@.contains(s@[j as int]));
        r.push(s[j]);
        assert(order@.take(i + 1) =~= order@.take(i as int).push(j));
        assert(r@ =~= order@.take(i + 1).map_values(|j: usize| s@[j as int]));
        i += 1;
    }
    assert(order@.take(order@.len() as int) =~= order@);
    r
}

} // verus!
