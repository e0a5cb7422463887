use vstd::prelude::*;
use crate::bits::{bit_of, with_bit, usize_get_bit, usize_set_bit, lemma_with_bit};
use crate::config::PRIO_NUM;

verus! {

/// Coroutine priority bitmap: bit `p` is set while priority level `p` has
/// ready coroutines.
pub struct BitMap(pub usize);

impl BitMap {
    /// Whether priority level `p` is marked.
    pub open spec fn has(&self, p: usize) -> bool {
        bit_of(self.0, p)
    }

    /// The most urgent marked level below `PRIO_NUM`, or `PRIO_NUM` when none is.
    pub open spec fn priority_spec(&self) -> usize {
        first_set_below(self.0, PRIO_NUM)
    }

    /// An empty bitmap.
    pub fn new() -> (r: Self)
        ensures
            r.0 == 0,
    {
        BitMap(0)
    }

    /// Marks (`val == true`) or clears level `prio`.
    pub fn update(&mut self, prio: usize, val: bool)
        requires
            prio < usize::BITS,
        ensures
            final(self).0 == with_bit(old(self).0, prio, val),
            final(self).has(prio) == val,
            forall|j: usize| j < usize::BITS && j != prio ==> #[trigger] final(self).has(j) == old(self).has(j),
    {
        let tmp = self.0;
        let tmp = usize_set_bit(tmp, prio, val);
        self.0 = tmp;
        proof {
            lemma_with_bit(old(self).0, prio, val, prio);
            assert forall|j: usize| j < usize::BITS && j != prio implies #[trigger] self.has(j) == old(self).has(j) by {
                lemma_with_bit(old(self).0, prio, val, j);
            }
        }
    }

    /// Whether level `id` is marked.
    pub fn get(&self, id: usize) -> (r: bool)
        requires
            id < usize::BITS,
        ensures
            r == self.has(id),
    {
        usize_get_bit(self.0, id)
    }

    /// The most urgent (lowest-numbered) marked level below `PRIO_NUM`, or
    /// `PRIO_NUM` when no such level is marked.
    pub fn get_priority(&self) -> (r: usize)
        ensures
            r == self.priority_spec(),
            r <= PRIO_NUM,
            r < PRIO_NUM ==> self.has(r),
            forall|j: usize| j < r ==> !#[trigger] self.has(j),
    {
        let cur = self.0;
        let mut i: usize = 0;
        while i < PRIO_NUM
            invariant
                i <= PRIO_NUM,
                cur == self.0,
                forall|j: usize| j < i ==> !#[trigger] bit_of(cur, j),
            decreases PRIO_NUM - i,
        {
            if usize_get_bit(cur, i) {
                proof { lemma_first_set_below(cur, PRIO_NUM as nat, i); }
                return i;
            }
            i = i + 1;
        }
        proof { lemma_first_set_below_none(cur, PRIO_NUM as nat); }
        PRIO_NUM
    }

    /// The raw bitmap word.
    pub fn get_val(&self) -> (r: usize)
        ensures
            r == self.0,
    {
        self.0
    }
}

/// The least `i < n` with bit `i` of `x` set, or `n` when there is none.
pub open spec fn first_set_below(x: usize, n: usize) -> usize
    decreases n,
{
    if n == 0 {
        0
    } else {
        let r = first_set_below(x, (n - 1) as usize);
        if r < n - 1 {
            r
        } else if bit_of(x, (n - 1) as usize) {
            (n - 1) as usize
        } else {
            n
        }
    }
}

/// `first_set_below` picks the least set bit.
pub proof fn lemma_first_set_below(x: usize, n: nat, i: usize)
    requires
        i < n,
        n <= usize::MAX,
        bit_of(x, i),
        forall|j: usize| j < i ==> !#[trigger] bit_of(x, j),
    ensures
        first_set_below(x, n as usize) == i,
    decreases n,
{
    if n - 1 > i {
        lemma_first_set_below(x, (n - 1) as nat, i);
    } else {
        lemma_first_set_below_none(x, i as nat);
    }
}

/// With no set bit below `n`, `first_set_below` is `n`.
pub proof fn lemma_first_set_below_none(x: usize, n: nat)
    requires
        n <= usize::MAX,
        forall|j: usize| j < n ==> !#[trigger] bit_of(x, j),
    ensures
        first_set_below(x, n as usize) == n,
    decreases n,
{
    if n > 0 {
        lemma_first_set_below_none(x, (n - 1) as nat);
    }
}

/// `first_set_below(x, n)` is at most `n`.
pub proof fn lemma_first_set_below_bound(x: usize, n: nat)
    requires
        n <= usize::MAX,
    ensures
        first_set_below(x, n as usize) <= n,
        first_set_below(x, n as usize) < n ==> bit_of(x, first_set_below(x, n as usize)),
    decreases n,
{
    if n > 0 {
        lemma_first_set_below_bound(x, (n - 1) as nat);
    }
}

/// Reading a level after marking or clearing it gives the value written,
/// and every other level reads as before.
pub proof fn bitmap_get_after_update(before: BitMap, after: BitMap, prio: usize, val: bool, other: usize)
    requires
        prio < usize::BITS,
        other < usize::BITS,
        after.0 == with_bit(before.0, prio, val),
    ensures
        after.has(prio) == val,
        other != prio ==> after.has(other) == before.has(other),
{
    lemma_with_bit(before.0, prio, val, prio);
    lemma_with_bit(before.0, prio, val, other);
}

} // verus!
