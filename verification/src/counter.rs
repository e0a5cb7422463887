use vstd::prelude::*;

verus! {

/// The running counter from which task ids are drawn, one id per call.
pub struct TaskCounter {
    next: usize,
}

impl TaskCounter {
    /// The id the next draw hands out.
    pub closed spec fn value(&self) -> usize {
        self.next
    }

    /// A counter that starts at id 0.
    pub fn new() -> (r: Self)
        ensures
            r.value() == 0,
    {
        TaskCounter { next: 0 }
    }

    /// The id the next draw hands out.
    pub fn peek(&self) -> (r: usize)
        ensures
            r == self.value(),
    {
        self.next
    }

    /// Hands out the current id and moves on to the next one.
    pub fn fetch_inc(&mut self) -> (r: usize)
        requires
            old(self).value() < usize::MAX,
        ensures
            r == old(self).value(),
            final(self).value() == old(self).value() + 1,
    {
        let id = self.next;
        self.next = id + 1;
        id
    }
}


/// Ids drawn one after another from the same counter are all different:
/// `fetch_inc` hands out the counter's value and moves it up by one, so a
/// later draw hands out a larger id.
pub proof fn drawn_ids_distinct(before: TaskCounter, after_first: TaskCounter, later: TaskCounter)
    requires
        after_first.value() == before.value() + 1,
        later.value() >= after_first.value(),
    ensures
        before.value() != later.value(),
{
}

} // verus!
