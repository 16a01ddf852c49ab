use vstd::prelude::*;

verus! {

/// Position `i` comes before position `j`: its key is smaller, or the keys
/// are equal and `i` came first.
pub open spec fn precedes(keys: Seq<int>, i: usize, j: usize) -> bool {
    ||| keys[i as int] < keys[j as int]
    ||| (keys[i as int] == keys[j as int] && i < j)
}

/// `order` lists every position of `keys` once, sorted by key, with ties in
/// input order (a stable sort).
pub open spec fn is_stable_order(keys: Seq<int>, order: Seq<usize>) -> bool {
    &&& order.len() == keys.len()
    &&& forall|a: int| 0 <= a < order.len() ==> order[a] < keys.len()
    &&& forall|i: usize| i < keys.len() ==> #[trigger] order.contains(i)
    &&& forall|a: int, b: int| 0 <= a < b < order.len() ==> precedes(keys, order[a], order[b])
}

/// The stable sorted order of `keys` (it exists, see `lemma_stable_order_exists`,
/// and is unique, see `lemma_stable_order_unique`).
pub open spec fn stable_order(keys: Seq<int>) -> Seq<usize> {
    choose|order: Seq<usize>| is_stable_order(keys, order)
}

proof fn lemma_orders_agree_upto(keys: Seq<int>, o1: Seq<usize>, o2: Seq<usize>, a: int)
    requires
        is_stable_order(keys, o1),
        is_stable_order(keys, o2),
        0 <= a < o1.len(),
    ensures
        forall|c: int| 0 <= c <= a ==> o1[c] == o2[c],
    decreases a,
{
    if a > 0 {
        lemma_orders_agree_upto(keys, o1, o2, a - 1);
    }
    let x = o1[a];
    let y = o2[a];
    if x != y {
        assert(o1.contains(y));
        let b = choose|b: int| 0 <= b < o1.len() && o1[b] == y;
        assert(o2.contains(x));
        let c = choose|c: int| 0 <= c < o2.len() && o2[c] == x;
        if b < a {
            assert(o2[b] == y);
            assert(precedes(keys, o2[b], o2[a]));
        }
        if c < a {
            assert(o1[c] == x);
            assert(precedes(keys, o1[c], o1[a]));
        }
        assert(precedes(keys, o1[a], o1[b]));
        assert(precedes(keys, o2[a], o2[c]));
    }
}

/// Any two stable sorted orders of the same keys are equal.
pub proof fn lemma_stable_order_unique(keys: Seq<int>, o1: Seq<usize>, o2: Seq<usize>)
    requires
        is_stable_order(keys, o1),
        is_stable_order(keys, o2),
    ensures
        o1 == o2,
{
    if o1.len() > 0 {
        lemma_orders_agree_upto(keys, o1, o2, o1.len() - 1);
    }
    assert(o1 =~= o2);
}

/// Inserting the next position `i` right after every listed position whose
/// key is at most `keys[i]` keeps a partial stable order.
proof fn lemma_insert_in_place(keys: Seq<int>, old_order: Seq<usize>, p: int, i: usize)
    requires
        i < keys.len(),
        0 <= p <= old_order.len(),
        old_order.len() == i,
        forall|a: int| 0 <= a < old_order.len() ==> old_order[a] < i,
        forall|j: usize| j < i ==> #[trigger] old_order.contains(j),
        forall|a: int, b: int|
            0 <= a < b < old_order.len() ==> precedes(keys, old_order[a], old_order[b]),
        forall|a: int| 0 <= a < p ==> keys[old_order[a] as int] <= keys[i as int],
        p < old_order.len() ==> keys[old_order[p] as int] > keys[i as int],
    ensures
        ({
            let new_order = old_order.insert(p, i);
            &&& new_order.len() == i + 1
            &&& forall|a: int| 0 <= a < new_order.len() ==> new_order[a] < i + 1
            &&& forall|j: usize| j < i + 1 ==> #[trigger] new_order.contains(j)
            &&& forall|a: int, b: int|
                0 <= a < b < new_order.len() ==> precedes(keys, new_order[a], new_order[b])
        }),
{
    let ki = keys[i as int];
    old_order.insert_ensures(p, i);
    let new_order = old_order.insert(p, i);
    assert forall|a: int| p <= a < old_order.len() implies keys[old_order[a] as int] > ki by {
        if a > p {
            assert(precedes(keys, old_order[p], old_order[a]));
        }
    }
    assert forall|a: int, b: int| 0 <= a < b < new_order.len() implies precedes(
        keys,
        new_order[a],
        new_order[b],
    ) by {
        if b < p {
            assert(precedes(keys, old_order[a], old_order[b]));
        } else if b == p {
        } else if a < p {
            assert(new_order[b] == old_order[b - 1]);
        } else if a == p {
            assert(new_order[b] == old_order[b - 1]);
        } else {
            assert(new_order[a] == old_order[a - 1]);
            assert(new_order[b] == old_order[b - 1]);
            assert(precedes(keys, old_order[a - 1], old_order[b - 1]));
        }
    }
    assert forall|j: usize| j < i + 1 implies #[trigger] new_order.contains(j) by {
        if j == i {
            assert(new_order[p] == j);
        } else {
            assert(old_order.contains(j));
            let a = choose|a: int| 0 <= a < old_order.len() && old_order[a] == j;
            if a < p {
                assert(new_order[a] == j);
            } else {
                assert(new_order[a + 1] == j);
            }
        }
    }
    assert forall|a: int| 0 <= a < new_order.len() implies new_order[a] < i + 1 by {
        if a > p {
            assert(new_order[a] == old_order[a - 1]);
        }
    }
}


/// Where the scan for an insertion point stops: after the leading entries of
/// `order` whose key is at most `k`.
proof fn insertion_point(keys: Seq<int>, order: Seq<usize>, k: int, p: int) -> (q: int)
    requires
        0 <= p <= order.len(),
        forall|a: int| 0 <= a < order.len() ==> order[a] < keys.len(),
        forall|a: int| 0 <= a < p ==> keys[order[a] as int] <= k,
    ensures
        p <= q <= order.len(),
        forall|a: int| 0 <= a < q ==> keys[order[a] as int] <= k,
        q < order.len() ==> keys[order[q] as int] > k,
    decreases order.len() - p,
{
    if p < order.len() && keys[order[p] as int] <= k {
        insertion_point(keys, order, k, p + 1)
    } else {
        p
    }
}

/// A stable order of the first `m` positions of `keys`.
proof fn stable_order_of_prefix(keys: Seq<int>, m: nat) -> (order: Seq<usize>)
    requires
        m <= keys.len() <= usize::MAX,
    ensures
        order.len() == m,
        forall|a: int| 0 <= a < order.len() ==> order[a] < m,
        forall|j: usize| j < m ==> #[trigger] order.contains(j),
        forall|a: int, b: int| 0 <= a < b < order.len() ==> precedes(keys, order[a], order[b]),
    decreases m,
{
    if m == 0 {
        Seq::empty()
    } else {
        let i = (m - 1) as usize;
        let old_order = stable_order_of_prefix(keys, (m - 1) as nat);
        let p = insertion_point(keys, old_order, keys[i as int], 0);
        lemma_insert_in_place(keys, old_order, p, i);
        old_order.insert(p, i)
    }
}

/// Every key sequence that a `Vec` can index has a stable sorted order, so
/// `stable_order` names one.
pub proof fn lemma_stable_order_exists(keys: Seq<int>)
    requires
        keys.len() <= usize::MAX,
    ensures
        is_stable_order(keys, stable_order(keys)),
{
    let witness = stable_order_of_prefix(keys, keys.len());
    assert(is_stable_order(keys, witness));
}

/// The positions of `keys` in stable sorted order: by key, ties in input order.
pub fn stable_sort_positions(keys: &Vec<i128>) -> (order: Vec<usize>)
    ensures
        order@ == stable_order(keys@.map_values(|k: i128| k as int)),
{
    let n = keys.len();
    let ghost ik = keys@.map_values(|k: i128| k as int);
    let mut order: Vec<usize> = Vec::new();
    for i in 0..n
        invariant
            n == keys.len(),
            ik == keys@.map_values(|k: i128| k as int),
            order.len() == i,
            forall|a: int| 0 <= a < order.len() ==> order@[a] < i,
            forall|j: usize| j < i ==> #[trigger] order@.contains(j),
            forall|a: int, b: int| 0 <= a < b < order.len() ==> precedes(ik, order@[a], order@[b]),
    {
        let ki = keys[i];
        let mut p: usize = 0;
        while p < order.len() && keys[order[p]] <= ki
            invariant
                n == keys.len(),
                ik == keys@.map_values(|k: i128| k as int),
                order.len() == i,
                i < n,
                p <= order.len(),
                forall|a: int| 0 <= a < order.len() ==> order@[a] < i,
                forall|a: int| 0 <= a < p ==> ik[order@[a] as int] <= ki,
            decreases order.len() - p,
        {
            p += 1;
        }
        proof {
            lemma_insert_in_place(ik, order@, p as int, i);
        }
        order.insert(p, i);
    }
    proof {
        assert(is_stable_order(ik, order@));
        lemma_stable_order_unique(ik, order@, stable_order(ik));
    }
    order
}

} // verus!
