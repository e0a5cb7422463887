use vstd::prelude::*;

verus! {

/// The waker handed to coroutines of the shared runtime. Tasks are woken by
/// explicit callbacks (`add_callback`), so a wake through the waker itself
/// does nothing.
pub struct TaskWaker {}

impl TaskWaker {
    /// A fresh waker state.
    pub fn new() -> (r: Self) {
        TaskWaker {}
    }

    /// Waking through the waker does nothing; tasks come back through callbacks.
    pub fn wake_task(&self) {
    }
}

} // verus!
