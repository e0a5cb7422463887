//! A row of FIFO queues, one per priority level, viewed as a sequence of
//! sequences, and the multiset of everything queued.
use vstd::prelude::*;
use vstd::multiset::Multiset;

verus! {

broadcast use vstd::multiset::group_multiset_axioms, vstd::seq_lib::group_to_multiset_ensures;

/// Everything held by the queues `qs`, with multiplicity.
pub open spec fn items<T>(qs: Seq<Seq<T>>) -> Multiset<T>
    decreases qs.len(),
{
    if qs.len() == 0 {
        Multiset::empty()
    } else {
        items(qs.drop_last()).add(qs.last().to_multiset())
    }
}

/// The least level whose queue is non-empty, or `qs.len()` when all are empty.
pub open spec fn first_nonempty<T>(qs: Seq<Seq<T>>) -> int
    decreases qs.len(),
{
    if qs.len() == 0 {
        0
    } else {
        let r = first_nonempty(qs.drop_last());
        if r < qs.len() - 1 {
            r
        } else if qs.last().len() > 0 {
            qs.len() - 1
        } else {
            qs.len() as int
        }
    }
}

/// Replacing queue `p` by `s` trades the old queue's items for those of `s`.
pub proof fn lemma_items_update<T>(qs: Seq<Seq<T>>, p: int, s: Seq<T>)
    requires
        0 <= p < qs.len(),
    ensures
        items(qs.update(p, s)).add(qs[p].to_multiset()) =~= items(qs).add(s.to_multiset()),
    decreases qs.len(),
{
    let u = qs.update(p, s);
    let lhs = items(u).add(qs[p].to_multiset());
    let rhs = items(qs).add(s.to_multiset());
    if p == qs.len() - 1 {
        assert(u.drop_last() =~= qs.drop_last());
        assert(u.last() == s);
        assert(items(u) == items(qs.drop_last()).add(s.to_multiset()));
        assert(items(qs) == items(qs.drop_last()).add(qs[p].to_multiset()));
        assert forall|v: T| lhs.count(v) == rhs.count(v) by {}
    } else {
        assert(u.drop_last() =~= qs.drop_last().update(p, s));
        assert(u.last() == qs.last());
        lemma_items_update(qs.drop_last(), p, s);
        let d = qs.drop_last();
        assert(items(u) == items(d.update(p, s)).add(qs.last().to_multiset()));
        assert(items(qs) == items(d).add(qs.last().to_multiset()));
        assert forall|v: T| lhs.count(v) == rhs.count(v) by {
            assert(items(d.update(p, s)).add(d[p].to_multiset()).count(v) == items(d).add(s.to_multiset()).count(v));
            assert(d[p] == qs[p]);
        }
    }
}

/// Appending `x` to queue `p` adds one copy of `x`.
pub proof fn lemma_items_push<T>(qs: Seq<Seq<T>>, p: int, x: T)
    requires
        0 <= p < qs.len(),
    ensures
        items(qs.update(p, qs[p].push(x))) =~= items(qs).insert(x),
{
    lemma_items_update(qs, p, qs[p].push(x));
    let a = items(qs.update(p, qs[p].push(x)));
    let b = items(qs);
    let m = qs[p].to_multiset();
    assert(qs[p].push(x).to_multiset() =~= m.insert(x));
    assert forall|v: T| a.count(v) == b.insert(x).count(v) by {
        assert(a.add(m).count(v) == b.add(m.insert(x)).count(v));
    }
}

/// Dropping the head of a non-empty queue `p` removes one copy of that head.
pub proof fn lemma_items_pop<T>(qs: Seq<Seq<T>>, p: int)
    requires
        0 <= p < qs.len(),
        qs[p].len() > 0,
    ensures
        items(qs.update(p, qs[p].subrange(1, qs[p].len() as int))) =~= items(qs).remove(qs[p][0]),
        items(qs).count(qs[p][0]) > 0,
{
    let q = qs[p];
    let s = q.subrange(1, q.len() as int);
    assert(q.remove(0) =~= s);
    lemma_items_update(qs, p, s);
    lemma_items_contains(qs, p, 0);
    let a = items(qs.update(p, s));
    let b = items(qs);
    assert(s.to_multiset() =~= q.to_multiset().remove(q[0]));
    assert(q.to_multiset().count(q[0]) > 0);
    assert forall|v: T| a.count(v) == b.remove(q[0]).count(v) by {
        assert(a.add(q.to_multiset()).count(v) == b.add(s.to_multiset()).count(v));
    }
}

/// Every queued element is counted.
pub proof fn lemma_items_contains<T>(qs: Seq<Seq<T>>, p: int, k: int)
    requires
        0 <= p < qs.len(),
        0 <= k < qs[p].len(),
    ensures
        items(qs).count(qs[p][k]) > 0,
    decreases qs.len(),
{
    assert(qs[p].contains(qs[p][k]));
    if p < qs.len() - 1 {
        assert(qs.drop_last()[p] == qs[p]);
        lemma_items_contains(qs.drop_last(), p, k);
    }
}

/// The queues hold nothing exactly when every queue is empty.
pub proof fn lemma_items_len<T>(qs: Seq<Seq<T>>)
    ensures
        items(qs).len() == 0 <==> forall|p: int| 0 <= p < qs.len() ==> #[trigger] qs[p].len() == 0,
    decreases qs.len(),
{
    if qs.len() > 0 {
        lemma_items_len(qs.drop_last());
        if items(qs).len() == 0 {
            assert forall|p: int| 0 <= p < qs.len() implies #[trigger] qs[p].len() == 0 by {
                if p < qs.len() - 1 {
                    assert(qs.drop_last()[p] == qs[p]);
                }
            }
        } else {
            if forall|p: int| 0 <= p < qs.len() ==> #[trigger] qs[p].len() == 0 {
                assert forall|p: int| 0 <= p < qs.drop_last().len() implies #[trigger] qs.drop_last()[p].len() == 0 by {
                    assert(qs.drop_last()[p] == qs[p]);
                }
                assert(qs[qs.len() - 1].len() == 0);
            }
        }
    }
}

/// `first_nonempty` is the least non-empty level.
pub proof fn lemma_first_nonempty<T>(qs: Seq<Seq<T>>)
    ensures
        0 <= first_nonempty(qs) <= qs.len(),
        first_nonempty(qs) < qs.len() ==> qs[first_nonempty(qs)].len() > 0,
        forall|j: int| 0 <= j < first_nonempty(qs) ==> #[trigger] qs[j].len() == 0,
    decreases qs.len(),
{
    if qs.len() > 0 {
        let d = qs.drop_last();
        lemma_first_nonempty(d);
        let r = first_nonempty(d);
        assert forall|j: int| 0 <= j < first_nonempty(qs) implies #[trigger] qs[j].len() == 0 by {
            if j < qs.len() - 1 {
                assert(d[j] == qs[j]);
            }
        }
        if r < qs.len() - 1 {
            assert(d[r] == qs[r]);
        }
    }
}

/// A level that is non-empty, with every lower level empty, is `first_nonempty`.
pub proof fn lemma_first_nonempty_is<T>(qs: Seq<Seq<T>>, i: int)
    requires
        0 <= i <= qs.len(),
        i < qs.len() ==> qs[i].len() > 0,
        forall|j: int| 0 <= j < i ==> #[trigger] qs[j].len() == 0,
    ensures
        first_nonempty(qs) == i,
{
    lemma_first_nonempty(qs);
    let f = first_nonempty(qs);
    if f < i {
        assert(qs[f].len() == 0);
    } else if f > i {
        assert(qs[i].len() == 0);
    }
}

/// Everything counted sits in some queue.
pub proof fn lemma_items_member<T>(qs: Seq<Seq<T>>, x: T)
    requires
        items(qs).count(x) > 0,
    ensures
        exists|p: int, k: int| 0 <= p < qs.len() && 0 <= k < qs[p].len() && #[trigger] qs[p][k] == x,
    decreases qs.len(),
{
    if qs.len() > 0 {
        let d = qs.drop_last();
        if items(d).count(x) > 0 {
            lemma_items_member(d, x);
            let (p, k) = choose|p: int, k: int| 0 <= p < d.len() && 0 <= k < d[p].len() && #[trigger] d[p][k] == x;
            assert(qs[p] == d[p]);
            assert(qs[p][k] == x);
        } else {
            assert(qs.last().to_multiset().count(x) > 0);
            assert(qs.last().contains(x));
            let k = choose|k: int| 0 <= k < qs.last().len() && qs.last()[k] == x;
            assert(qs[qs.len() - 1][k] == x);
        }
    }
}

} // verus!
