use vstd::prelude::*;
use crate::counter::TaskCounter;

verus! {

/// Identifier of a coroutine inside the shared runtime.
#[derive(PartialEq, Eq, Structural, Debug, Clone, Copy, Hash, Ord, PartialOrd)]
pub struct TaskId(pub usize);

impl TaskId {
    /// Draws a fresh id from `counter`; ids above `usize::MAX / 2` are
    /// refused ("too many tasks"), so the counter must not have passed that bound.
    pub fn generate(counter: &mut TaskCounter) -> (r: TaskId)
        requires
            old(counter).value() <= usize::MAX / 2,
        ensures
            r.0 == old(counter).value(),
            final(counter).value() == old(counter).value() + 1,
    {
        TaskId(counter.fetch_inc())
    }

    /// The id whose number is `v`.
    pub fn get_tid_by_usize(v: usize) -> (r: Self)
        ensures
            r.0 == v,
    {
        TaskId(v)
    }

    /// The id's number.
    pub fn get_val(&self) -> (r: usize)
        ensures
            r == self.0,
    {
        self.0
    }
}

} // verus!
