//! Pending work in arrival order: the entries of each priority level, in
//! the order they arrived, and the entry a strict-priority, first-in
//! first-out queue hands out next.
use vstd::prelude::*;

verus! {

/// Something queued at a priority level (0 is the most urgent).
pub trait Leveled {
    spec fn level(&self) -> int;
}

/// The entries of `l` at level `p`, in their order in `l`.
pub open spec fn at_level<A: Leveled>(l: Seq<A>, p: int) -> Seq<A>
    decreases l.len(),
{
    if l.len() == 0 {
        Seq::empty()
    } else {
        let rest = at_level(l.drop_last(), p);
        if l.last().level() == p {
            rest.push(l.last())
        } else {
            rest
        }
    }
}

/// The position in `l` of the earliest entry of the most urgent level
/// (0 when `l` is empty).
pub open spec fn urgent_index<A: Leveled>(l: Seq<A>) -> int
    decreases l.len(),
{
    if l.len() <= 1 {
        0
    } else {
        let i = urgent_index(l.drop_last());
        if l.last().level() < l[i].level() {
            l.len() - 1
        } else {
            i
        }
    }
}

/// What a strict-priority, first-in first-out queue holding `l` (in arrival
/// order) hands out next, and what it then holds: nothing when `l` is
/// empty, else the earliest entry of the most urgent level.
pub open spec fn take_urgent<A: Leveled>(l: Seq<A>) -> (Option<A>, Seq<A>) {
    if l.len() == 0 {
        (None, l)
    } else {
        (Some(l[urgent_index(l)]), l.remove(urgent_index(l)))
    }
}

/// Every entry of `l` is at a level below `n`.
pub open spec fn levels_below<A: Leveled>(l: Seq<A>, n: int) -> bool {
    forall|j: int| 0 <= j < l.len() ==> 0 <= #[trigger] l[j].level() < n
}

/// The entry at `urgent_index` is at the lowest level, and every earlier
/// entry is at a strictly higher level.
pub proof fn lemma_urgent_index<A: Leveled>(l: Seq<A>)
    requires
        l.len() > 0,
    ensures
        0 <= urgent_index(l) < l.len(),
        forall|j: int| 0 <= j < l.len() ==> l[urgent_index(l)].level() <= #[trigger] l[j].level(),
        forall|j: int| 0 <= j < urgent_index(l) ==> l[urgent_index(l)].level() < #[trigger] l[j].level(),
    decreases l.len(),
{
    if l.len() > 1 {
        let d = l.drop_last();
        lemma_urgent_index(d);
        let i = urgent_index(d);
        let u = urgent_index(l);
        assert(d[i] == l[i]);
        assert forall|j: int| 0 <= j < l.len() implies l[u].level() <= #[trigger] l[j].level() by {
            if j < d.len() {
                assert(d[j] == l[j]);
                assert(d[i].level() <= d[j].level());
            }
        }
        assert forall|j: int| 0 <= j < u implies l[u].level() < #[trigger] l[j].level() by {
            assert(d[j] == l[j]);
            if u == i {
                assert(d[i].level() < d[j].level());
            } else {
                assert(d[i].level() <= d[j].level());
            }
        }
    }
}

/// Appending an entry appends it to its own level only.
pub proof fn lemma_at_level_push<A: Leveled>(l: Seq<A>, x: A, p: int)
    ensures
        at_level(l.push(x), p) == (if x.level() == p { at_level(l, p).push(x) } else { at_level(l, p) }),
{
    assert(l.push(x).drop_last() =~= l);
}

/// A level is empty exactly when no entry is at it, and every entry of a
/// level is at that level.
pub proof fn lemma_at_level_members<A: Leveled>(l: Seq<A>, p: int)
    ensures
        at_level(l, p).len() == 0 <==> forall|j: int| 0 <= j < l.len() ==> #[trigger] l[j].level() != p,
        forall|k: int| 0 <= k < at_level(l, p).len() ==> #[trigger] at_level(l, p)[k].level() == p,
    decreases l.len(),
{
    if l.len() > 0 {
        let d = l.drop_last();
        lemma_at_level_members(d, p);
        assert forall|j: int| 0 <= j < d.len() implies #[trigger] d[j] == l[j] by {}
        if at_level(l, p).len() == 0 {
            assert forall|j: int| 0 <= j < l.len() implies #[trigger] l[j].level() != p by {
                if j < d.len() {
                    assert(d[j] == l[j]);
                }
            }
        }
    }
}

/// Taking out the earliest entry of its level takes out the head of that
/// level.
pub proof fn lemma_at_level_remove_first<A: Leveled>(l: Seq<A>, i: int)
    requires
        0 <= i < l.len(),
        forall|j: int| 0 <= j < i ==> #[trigger] l[j].level() != l[i].level(),
    ensures
        at_level(l, l[i].level()).len() > 0,
        at_level(l, l[i].level())[0] == l[i],
        at_level(l.remove(i), l[i].level()) == at_level(l, l[i].level()).drop_first(),
    decreases l.len(),
{
    let p = l[i].level();
    let d = l.drop_last();
    if i == l.len() - 1 {
        assert(l.remove(i) =~= d);
        assert forall|j: int| 0 <= j < d.len() implies #[trigger] d[j].level() != p by {
            assert(d[j] == l[j]);
        }
        lemma_at_level_members(d, p);
        assert(at_level(l, p) =~= seq![l[i]]);
        assert(at_level(d, p) =~= Seq::<A>::empty());
    } else {
        assert(d[i] == l[i]);
        assert forall|j: int| 0 <= j < i implies #[trigger] d[j].level() != d[i].level() by {
            assert(d[j] == l[j]);
        }
        lemma_at_level_remove_first(d, i);
        assert(l.remove(i) =~= d.remove(i).push(l.last()));
        lemma_at_level_push(d.remove(i), l.last(), p);
        assert(at_level(l.remove(i), p) =~= at_level(l, p).drop_first());
    }
}

/// Taking out an entry leaves every other level as it was.
pub proof fn lemma_at_level_remove_other<A: Leveled>(l: Seq<A>, i: int, q: int)
    requires
        0 <= i < l.len(),
        l[i].level() != q,
    ensures
        at_level(l.remove(i), q) == at_level(l, q),
    decreases l.len(),
{
    let d = l.drop_last();
    if i == l.len() - 1 {
        assert(l.remove(i) =~= d);
    } else {
        assert(d[i] == l[i]);
        lemma_at_level_remove_other(d, i, q);
        assert(l.remove(i) =~= d.remove(i).push(l.last()));
        lemma_at_level_push(d.remove(i), l.last(), q);
    }
}

} // verus!
