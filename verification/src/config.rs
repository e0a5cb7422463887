use vstd::prelude::*;

verus! {

/// Number of coroutine priority levels (level 0 is the most urgent in the
/// shared runtime).
pub const PRIO_NUM: usize = 8;

/// Number of user address spaces the shared runtime keeps state for.
pub const MAX_USER: usize = 4;

/// Number of threads per address space the shared runtime keeps state for.
pub const MAX_THREAD: usize = 4;

/// Capacity of the callback table (task ids must stay below it).
pub const CAP: usize = 1024;

} // verus!
