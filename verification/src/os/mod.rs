//! The kernel's side: interrupt routing, buffered serial ports, the
//! process queue and the asynchronous read/write system calls.
pub mod plic;
pub mod uart;
pub mod task_manager;
pub mod async_wr;
