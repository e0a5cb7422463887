use vstd::prelude::*;
use crate::config::{PRIO_NUM, CAP};
use crate::counter::TaskCounter;
use crate::coroutine::scheduler::TaskId;

verus! {

/// Draws the id of a new coroutine of this address space (below
/// `PRIO_NUM * CAP`, see `TaskId::generate`).
pub fn alloc_task_id(counter: &mut TaskCounter) -> (id: usize)
    requires
        old(counter).value() < PRIO_NUM * CAP,
    ensures
        id == old(counter).value(),
        final(counter).value() == old(counter).value() + 1,
{
    TaskId::generate(counter)
}

} // verus!
