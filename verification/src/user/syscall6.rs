//! The asynchronous read/write system calls, as six-argument requests.
use vstd::prelude::*;

verus! {

/// System call number of the asynchronous read.
pub const ASYNC_SYSCALL_READ: usize = 2501;

/// System call number of the asynchronous write.
pub const ASYNC_SYSCALL_WRITE: usize = 2502;

/// A six-argument system call to make: its number and its arguments.
#[derive(Debug, Clone, Copy)]
pub struct Syscall6 {
    pub id: usize,
    pub args: [usize; 6],
}

/// Starts reading `buffer_len` bytes of file `fd` into `buffer_ptr` on behalf
/// of coroutine `tid` of thread `thread_id` of space `pid`.
pub fn async_sys_read(fd: usize, buffer_ptr: usize, buffer_len: usize, tid: usize, pid: usize, thread_id: usize) -> (r: Syscall6)
    ensures
        r.id == ASYNC_SYSCALL_READ,
        r.args@ == seq![fd, buffer_ptr, buffer_len, tid, pid, thread_id],
{
    Syscall6 { id: ASYNC_SYSCALL_READ, args: [fd, buffer_ptr, buffer_len, tid, pid, thread_id] }
}

/// Starts writing `buffer_len` bytes at `buffer_ptr` to file `fd` on behalf of
/// coroutine `tid` of space `pid`; `read_fd` names the key of the reader to wake.
pub fn async_sys_write(fd: usize, buffer_ptr: usize, buffer_len: usize, tid: usize, pid: usize, read_fd: usize) -> (r: Syscall6)
    ensures
        r.id == ASYNC_SYSCALL_WRITE,
        r.args@ == seq![fd, buffer_ptr, buffer_len, tid, pid, read_fd],
{
    Syscall6 { id: ASYNC_SYSCALL_WRITE, args: [fd, buffer_ptr, buffer_len, tid, pid, read_fd] }
}

} // verus!
