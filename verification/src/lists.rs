//! Lists without repetition, and lists of what a predicate picks.
use vstd::prelude::*;

verus! {

/// The elements of `s` without repetitions: of equal ones the first stays.
pub open spec fn distinct<T>(s: Seq<T>) -> Seq<T>
    decreases s.len(),
{
    if s.len() == 0 {
        Seq::empty()
    } else {
        let before = distinct(s.drop_last());
        if before.contains(s.last()) {
            before
        } else {
            before.push(s.last())
        }
    }
}

/// Nothing occurs twice, and what occurs is what occurs in `s`.
pub proof fn lemma_distinct<T>(s: Seq<T>)
    ensures
        distinct(s).no_duplicates(),
        distinct(s).len() <= s.len(),
        forall|x: T| distinct(s).contains(x) <==> s.contains(x),
    decreases s.len(),
{
    if s.len() > 0 {
        let b = s.drop_last();
        lemma_distinct(b);
        assert forall|x: T| distinct(s).contains(x) <==> s.contains(x) by {
            assert(s =~= b.push(s.last()));
            if s.contains(x) {
                let i = choose|i: int| 0 <= i < s.len() && s[i] == x;
                if i < b.len() {
                    assert(b[i] == x);
                    assert(b.contains(x));
                    let j = choose|j: int| 0 <= j < distinct(b).len() && distinct(b)[j] == x;
                    assert(distinct(s)[j] == x);
                } else if distinct(b).contains(x) {
                } else {
                    assert(distinct(s).last() == x);
                }
            }
            if distinct(s).contains(x) {
                let j = choose|j: int| 0 <= j < distinct(s).len() && distinct(s)[j] == x;
                if j < distinct(b).len() {
                    assert(distinct(b)[j] == x);
                    assert(b.contains(x));
                    let i = choose|i: int| 0 <= i < b.len() && b[i] == x;
                    assert(s[i] == x);
                } else {
                    assert(s[s.len() - 1] == x);
                }
            }
        }
    }
}

/// A longer list has the distinct elements of a shorter one first.
pub proof fn lemma_distinct_grows<T>(s: Seq<T>, k: int)
    requires
        0 <= k <= s.len(),
    ensures
        distinct(s.take(k)).len() <= distinct(s).len(),
        distinct(s.take(k)) == distinct(s).take(distinct(s.take(k)).len() as int),
    decreases s.len() - k,
{
    if k < s.len() {
        lemma_distinct_grows(s, k + 1);
        assert(s.take(k + 1).drop_last() =~= s.take(k));
        assert(distinct(s.take(k)) =~= distinct(s).take(distinct(s.take(k)).len() as int));
    } else {
        assert(s.take(k) =~= s);
        assert(distinct(s) =~= distinct(s).take(distinct(s).len() as int));
    }
}

/// Whether `at` are the places at which `keep` holds, each of them once and in order.
pub open spec fn picks(at: Seq<int>, keep: Seq<bool>) -> bool {
    &&& forall|k: int| 0 <= k < at.len() ==> 0 <= (#[trigger] at[k]) < keep.len() && keep[at[k]]
    &&& forall|j: int, k: int| 0 <= j < k < at.len() ==> (#[trigger] at[j]) < (#[trigger] at[k])
    &&& forall|i: int| 0 <= i < keep.len() && (#[trigger] keep[i]) ==> at.contains(i)
}

/// One more place: it is picked where `keep` holds there.
pub proof fn lemma_picks_step(at: Seq<int>, keep: Seq<bool>)
    requires
        keep.len() > 0,
        picks(at, keep.drop_last()),
    ensures
        picks(
            if keep.last() {
                at.push(keep.len() - 1)
            } else {
                at
            },
            keep,
        ),
{
    let n = keep.len() - 1;
    let next = if keep.last() {
        at.push(n)
    } else {
        at
    };
    let b = keep.drop_last();
    assert forall|k: int| 0 <= k < next.len() implies 0 <= (#[trigger] next[k]) < keep.len()
        && keep[next[k]] by {
        if k < at.len() {
            assert(next[k] == at[k]);
            assert(b[at[k]] == keep[at[k]]);
        }
    }
    assert forall|i: int| 0 <= i < keep.len() && (#[trigger] keep[i]) implies next.contains(i) by {
        if i < n {
            assert(b[i]);
            let k = choose|k: int| 0 <= k < at.len() && at[k] == i;
            assert(next[k] == i);
        } else {
            assert(next[at.len() as int] == n);
        }
    }
}

/// Where `keep` holds everywhere, every place is picked.
pub proof fn lemma_picks_all(at: Seq<int>, keep: Seq<bool>)
    requires
        picks(at, keep),
        forall|i: int| 0 <= i < keep.len() ==> keep[i],
    ensures
        at == Seq::new(keep.len(), |i: int| i),
    decreases keep.len(),
{
    if keep.len() == 0 {
        if at.len() > 0 {
            assert(0 <= at[0] < keep.len());
        }
        assert(at =~= Seq::new(keep.len(), |i: int| i));
    } else {
        let n = keep.len() - 1;
        assert(keep[n]);
        assert(at.contains(n));
        let k = choose|k: int| 0 <= k < at.len() && at[k] == n;
        assert(k == at.len() - 1) by {
            if k < at.len() - 1 {
                assert(at[k] < at[at.len() - 1]);
                assert(at[at.len() - 1] < keep.len());
            }
        }
        let b = at.drop_last();
        let kb = keep.drop_last();
        assert(picks(b, kb)) by {
            assert forall|j: int| 0 <= j < b.len() implies 0 <= (#[trigger] b[j]) < kb.len()
                && kb[b[j]] by {
                assert(b[j] == at[j]);
                assert(at[j] < at[k]);
            }
            assert forall|i: int| 0 <= i < kb.len() && (#[trigger] kb[i]) implies b.contains(i) by {
                assert(keep[i]);
                let j = choose|j: int| 0 <= j < at.len() && at[j] == i;
                assert(j != k);
                assert(b[j] == i);
            }
        }
        lemma_picks_all(b, kb);
        assert(b.len() == kb.len());
        assert forall|i: int| 0 <= i < keep.len() implies at[i] == i by {
            if i < n {
                assert(at[i] == b[i]);
            }
        }
        assert(at =~= Seq::new(keep.len(), |i: int| i));
    }
}

/// Which elements are the first of those that are equal to them.
pub open spec fn first_seen<T>(s: Seq<T>) -> Seq<bool> {
    Seq::new(s.len(), |i: int| forall|j: int| 0 <= j < i ==> #[trigger] s[j] != s[i])
}

/// The distinct elements are those that no equal one stands before, in order.
pub proof fn lemma_distinct_picks<T>(s: Seq<T>) -> (at: Seq<int>)
    ensures
        picks(at, first_seen(s)),
        distinct(s) == Seq::new(at.len(), |k: int| s[at[k]]),
    decreases s.len(),
{
    let keep = first_seen(s);
    if s.len() == 0 {
        assert(distinct(s) =~= Seq::new(0, |k: int| s[k]));
        Seq::empty()
    } else {
        let b = s.drop_last();
        let n = s.len() - 1;
        let at = lemma_distinct_picks(b);
        assert forall|i: int| 0 <= i < b.len() implies #[trigger] keep[i] == first_seen(b)[i] by {
            assert forall|j: int| 0 <= j < i implies s[j] == b[j] by {}
            if first_seen(b)[i] {
                assert forall|j: int| 0 <= j < i implies #[trigger] s[j] != s[i] by {
                    assert(b[j] != b[i]);
                }
            }
            if keep[i] {
                assert forall|j: int| 0 <= j < i implies #[trigger] b[j] != b[i] by {
                    assert(s[j] != s[i]);
                }
            }
        }
        assert(keep.drop_last() =~= first_seen(b));
        lemma_picks_step(at, keep);
        lemma_distinct(b);
        assert(keep.last() == !distinct(b).contains(s.last())) by {
            if b.contains(s.last()) {
                let j = choose|j: int| 0 <= j < b.len() && b[j] == s.last();
                assert(s[j] == s[n]);
            }
            if !keep.last() {
                let j = choose|j: int| 0 <= j < n && #[trigger] s[j] == s[n];
                assert(b[j] == s.last());
                assert(b.contains(s.last()));
            }
        }
        assert forall|k: int| 0 <= k < at.len() implies #[trigger] b[at[k]] == s[at[k]] by {
            assert(0 <= at[k] < first_seen(b).len());
        }
        let next = if keep.last() {
            at.push(n)
        } else {
            at
        };
        assert(distinct(s) =~= Seq::new(next.len(), |k: int| s[next[k]]));
        next
    }
}

} // verus!
