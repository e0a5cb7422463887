//! The shared coroutine runtime that the kernel loads as a module and that
//! every user address space calls into.
pub mod bitmap;
pub mod scheduler;
pub mod user_task;
pub mod task_queue;
pub mod manager;
pub mod ccmap;
pub mod global;
pub mod executor;
pub mod task_waker;
pub mod syscall;
