//! Stable sorting by descending keys.
use vstd::prelude::*;

verus! {

/// The positions of `order` with `i` put behind all whose key is no smaller than that of `i`.
pub open spec fn placed(order: Seq<usize>, keys: Seq<i64>, i: usize) -> Seq<usize>
    decreases order.len(),
{
    if order.len() == 0 || keys[order.last() as int] >= keys[i as int] {
        order.push(i)
    } else {
        placed(order.drop_last(), keys, i).push(order.last())
    }
}

/// The positions of the first `n` keys, those of greater keys first; of equal keys the earlier
/// position first.
pub open spec fn descending(keys: Seq<i64>, n: nat) -> Seq<usize>
    decreases n,
{
    if n == 0 {
        Seq::empty()
    } else {
        placed(descending(keys, (n - 1) as nat), keys, (n - 1) as usize)
    }
}

/// Where a position is put.
proof fn lemma_placed_at(order: Seq<usize>, keys: Seq<i64>, i: usize, at: int)
    requires
        0 <= at <= order.len(),
        at == 0 || keys[order[at - 1] as int] >= keys[i as int],
        forall|k: int| at <= k < order.len() ==> keys[#[trigger] order[k] as int] < keys[i as int],
    ensures
        placed(order, keys, i) == order.insert(at, i),
    decreases order.len(),
{
    if order.len() == 0 || at == order.len() {
        assert(order.insert(at, i) =~= order.push(i));
    } else {
        assert(keys[order[order.len() - 1] as int] < keys[i as int]);
        assert forall|k: int| at <= k < order.drop_last().len() implies keys[#[trigger] order.drop_last()[k] as int]
            < keys[i as int] by {
            assert(order.drop_last()[k] == order[k]);
        }
        lemma_placed_at(order.drop_last(), keys, i, at);
        assert(order.drop_last().insert(at, i).push(order.last()) =~= order.insert(at, i));
    }
}

/// The positions of the keys, those of greater keys first; of equal keys the earlier position
/// first.
pub fn rank_descending(keys: &[i64]) -> (order: Vec<usize>)
    ensures
        order@ == descending(keys@, keys@.len()),
        forall|k: int| 0 <= k < order@.len() ==> #[trigger] order@[k] < keys@.len(),
{
    let mut order: Vec<usize> = Vec::new();
    for i in 0..keys.len()
        invariant
            order@ == descending(keys@, i as nat),
            order@.len() == i,
            forall|k: int| 0 <= k < order@.len() ==> #[trigger] order@[k] < i,
    {
        let mut at: usize = order.len();
        while at > 0 && keys[order[at - 1]] < keys[i]
            invariant
                at <= order@.len(),
                i < keys@.len(),
                forall|k: int| 0 <= k < order@.len() ==> #[trigger] order@[k] < i,
                forall|k: int|
                    at <= k < order@.len() ==> keys@[#[trigger] order@[k] as int]
                        < keys@[i as int],
            decreases at,
        {
            at = at - 1;
        }
        proof {
            lemma_placed_at(order@, keys@, i, at as int);
        }
        order.insert(at, i);
    }
    order
}

/// `order` has the positions below `n`, each once; greater keys come first, and of equal keys
/// the earlier position.
pub open spec fn is_stable_order(order: Seq<usize>, keys: Seq<i64>, n: nat) -> bool {
    &&& order.len() == n
    &&& forall|a: int| 0 <= a < order.len() ==> #[trigger] order[a] < n
    &&& forall|a: int, b: int|
        0 <= a < b < order.len() ==> keys[#[trigger] order[a] as int] > keys[#[trigger] order[b] as int] || (
        keys[order[a] as int] == keys[order[b] as int] && order[a] < order[b])
}

proof fn lemma_placed_is_stable(order: Seq<usize>, keys: Seq<i64>, i: usize)
    requires
        forall|a: int| 0 <= a < order.len() ==> #[trigger] order[a] < i,
        forall|a: int, b: int|
            0 <= a < b < order.len() ==> keys[#[trigger] order[a] as int] > keys[#[trigger] order[b] as int] || (
            keys[order[a] as int] == keys[order[b] as int] && order[a] < order[b]),
    ensures
        ({
            let p = placed(order, keys, i);
            &&& p.len() == order.len() + 1
            &&& forall|a: int| 0 <= a < p.len() ==> #[trigger] p[a] == i || order.contains(p[a])
            &&& forall|a: int| 0 <= a < p.len() ==> #[trigger] p[a] <= i
            &&& forall|a: int, b: int|
                0 <= a < b < p.len() ==> keys[#[trigger] p[a] as int] > keys[#[trigger] p[b] as int] || (
                keys[p[a] as int] == keys[p[b] as int] && p[a] < p[b])
        }),
    decreases order.len(),
{
    if order.len() == 0 {
    } else if keys[order.last() as int] >= keys[i as int] {
        let p = order.push(i);
        assert forall|a: int, b: int| 0 <= a < b < p.len() implies keys[#[trigger] p[a] as int]
            > keys[#[trigger] p[b] as int] || (keys[p[a] as int] == keys[p[b] as int] && p[a] < p[b]) by {
            if b == order.len() {
                assert(p[a] == order[a]);
                if a < order.len() - 1 {
                    assert(order[order.len() - 1] == order.last());
                }
            } else {
                assert(p[a] == order[a] && p[b] == order[b]);
            }
        }
        assert forall|a: int| 0 <= a < p.len() implies #[trigger] p[a] == i || order.contains(p[a]) by {
            if a < order.len() {
                assert(p[a] == order[a]);
            }
        }
    } else {
        let before = order.drop_last();
        assert forall|a: int, b: int| 0 <= a < b < before.len() implies keys[#[trigger] before[a] as int]
            > keys[#[trigger] before[b] as int] || (keys[before[a] as int] == keys[before[b] as int] && before[a]
            < before[b]) by {
            assert(before[a] == order[a] && before[b] == order[b]);
        }
        assert forall|a: int| 0 <= a < before.len() implies #[trigger] before[a] < i by {
            assert(before[a] == order[a]);
        }
        lemma_placed_is_stable(before, keys, i);
        let q = placed(before, keys, i);
        let p = q.push(order.last());
        assert forall|a: int, b: int| 0 <= a < b < p.len() implies keys[#[trigger] p[a] as int]
            > keys[#[trigger] p[b] as int] || (keys[p[a] as int] == keys[p[b] as int] && p[a] < p[b]) by {
            if b == q.len() {
                assert(p[a] == q[a]);
                if q[a] != i {
                    let c = choose|c: int| 0 <= c < before.len() && before[c] == q[a];
                    assert(order[c] == q[a]);
                    assert(order[order.len() - 1] == order.last());
                }
            } else {
                assert(p[a] == q[a] && p[b] == q[b]);
            }
        }
        assert forall|a: int| 0 <= a < p.len() implies #[trigger] p[a] == i || order.contains(p[a]) by {
            if a < q.len() {
                assert(p[a] == q[a]);
                if q[a] != i {
                    let c = choose|c: int| 0 <= c < before.len() && before[c] == q[a];
                    assert(order[c] == q[a]);
                }
            } else {
                assert(p[a] == order[order.len() - 1]);
            }
        }
        assert forall|a: int| 0 <= a < p.len() implies #[trigger] p[a] <= i by {
            if a < q.len() {
                assert(p[a] == q[a]);
            } else {
                assert(p[a] == order[order.len() - 1]);
            }
        }
    }
}

/// Sorting loses and repeats nothing, puts greater keys first, and leaves equal keys in the
/// order in which they came.
pub proof fn law_descending_is_stable(keys: Seq<i64>, n: nat)
    requires
        n <= keys.len(),
        keys.len() <= usize::MAX,
    ensures
        is_stable_order(descending(keys, n), keys, n),
    decreases n,
{
    if n > 0 {
        law_descending_is_stable(keys, (n - 1) as nat);
        lemma_placed_is_stable(descending(keys, (n - 1) as nat), keys, (n - 1) as usize);
    }
}

proof fn lemma_placed_holds(order: Seq<usize>, keys: Seq<i64>, i: usize)
    ensures
        placed(order, keys, i).contains(i),
        forall|x: usize| #[trigger] order.contains(x) ==> placed(order, keys, i).contains(x),
    decreases order.len(),
{
    let p = placed(order, keys, i);
    if order.len() == 0 {
        assert(p[0] == i);
    } else if keys[order.last() as int] >= keys[i as int] {
        assert(p[order.len() as int] == i);
        assert forall|x: usize| #[trigger] order.contains(x) implies p.contains(x) by {
            let a = choose|a: int| 0 <= a < order.len() && order[a] == x;
            assert(p[a] == x);
        }
    } else {
        let before = order.drop_last();
        let q = placed(before, keys, i);
        lemma_placed_holds(before, keys, i);
        let at = choose|a: int| 0 <= a < q.len() && q[a] == i;
        assert(p[at] == i);
        assert forall|x: usize| #[trigger] order.contains(x) implies p.contains(x) by {
            let a = choose|a: int| 0 <= a < order.len() && order[a] == x;
            if a < order.len() - 1 {
                assert(before[a] == x);
                assert(before.contains(x));
                let b = choose|b: int| 0 <= b < q.len() && q[b] == x;
                assert(p[b] == x);
            } else {
                assert(p[q.len() as int] == x);
            }
        }
    }
}

/// Each of the first `n` positions has its place in the order.
pub proof fn law_descending_holds_every_position(keys: Seq<i64>, n: nat)
    requires
        n <= usize::MAX,
    ensures
        forall|i: usize| i < n ==> #[trigger] descending(keys, n).contains(i),
    decreases n,
{
    if n > 0 {
        law_descending_holds_every_position(keys, (n - 1) as nat);
        let before = descending(keys, (n - 1) as nat);
        lemma_placed_holds(before, keys, (n - 1) as usize);
        assert forall|i: usize| i < n implies #[trigger] descending(keys, n).contains(i) by {
            if i < n - 1 {
                assert(before.contains(i));
            }
        }
    }
}

} // verus!
