//! Verified core of an asynchronous, coroutine-based teaching operating system:
//! the shared runtime's priority bitmaps, schedulers, task queues and
//! callback tables, the user-side coroutine scheduler, the system-call
//! request layer and the kernel's serial/interrupt/process-queue logic.
pub mod config;
pub mod bits;
pub mod queues;
pub mod arrival;
pub mod counter;
pub mod rt;
pub mod coroutine;
pub mod user;
pub mod os;
