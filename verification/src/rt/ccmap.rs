use vstd::prelude::*;
use std::collections::BTreeMap;

verus! {

broadcast use vstd::std_specs::btree::group_btree_axioms, vstd::laws_cmp::group_laws_cmp;

/// Which kernel (reading) coroutine waits on each write key: a write
/// coroutine looks its key up to find the reader to wake.
pub struct WRMap {
    map: BTreeMap<usize, usize>,
}

impl View for WRMap {
    type V = Map<usize, usize>;

    closed spec fn view(&self) -> Map<usize, usize> {
        self.map@
    }
}

impl WRMap {
    /// What `get_rid(k)` returns: the reader registered for key `k`, if any.
    pub open spec fn rid_of(&self, k: usize) -> Option<usize> {
        if self@.contains_key(k) {
            Some(self@[k])
        } else {
            None
        }
    }

    /// No registrations.
    pub fn new() -> (r: Self)
        ensures
            r@ == Map::<usize, usize>::empty(),
    {
        WRMap { map: BTreeMap::new() }
    }

    /// Records that reader `rid` waits on key `k` (replacing any earlier reader).
    pub fn register(&mut self, k: usize, rid: usize)
        ensures
            final(self)@ == old(self)@.insert(k, rid),
    {
        self.map.insert(k, rid);
    }

    /// The reader waiting on key `k`, if any; the registration is consumed.
    pub fn get_rid(&mut self, k: usize) -> (r: Option<usize>)
        ensures
            r == old(self).rid_of(k),
            final(self)@ == old(self)@.remove(k),
    {
        let mut ret = None;
        let got = match self.map.get(&k) {
            Some(v) => Some(*v),
            None => None,
        };
        if got.is_some() {
            ret = got;
            self.map.remove(&k);
        } else {
            proof {
                assert(old(self)@.remove(k) =~= old(self)@);
            }
        }
        ret
    }
}


/// A registration is answered once: after `register(k, rid)`, `get_rid(k)`
/// gives `rid`, and a second `get_rid(k)` gives nothing.
pub proof fn registration_answered_once(before: WRMap, registered: WRMap, answered: WRMap, k: usize, rid: usize)
    requires
        registered@ == before@.insert(k, rid),
        answered@ == registered@.remove(k),
    ensures
        registered.rid_of(k) == Some(rid),
        answered.rid_of(k) == None::<usize>,
{
}

} // verus!
