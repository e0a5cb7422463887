use vstd::prelude::*;

verus! {

/// The kernel's work for an asynchronous write, in this order: write `len`
/// bytes at user address `buf` to `write_fd`, close `close_fd`, then wake the
/// read coroutine of space `wake_pid` registered under key `wake_key` (the
/// work of `wake_kernel_tid`), and answer `ret`.
#[derive(PartialEq, Eq, Structural, Debug, Clone, Copy)]
pub struct AsyncWrite {
    pub write_fd: usize,
    pub buf: usize,
    pub len: usize,
    pub close_fd: usize,
    pub wake_pid: usize,
    pub wake_key: usize,
    pub ret: isize,
}

/// Handles an asynchronous write: the bytes are written to `fd`, `fd` is
/// closed, the read coroutine waiting on this write (key `read_fd` of space
/// `pid`) is woken, and the call answers 0. The writing task `_tid` is not used.
pub fn async_sys_write(fd: usize, buf: usize, len: usize, _tid: usize, pid: usize, read_fd: usize) -> (r: AsyncWrite)
    ensures
        r == (AsyncWrite { write_fd: fd, buf, len, close_fd: fd, wake_pid: pid, wake_key: read_fd, ret: 0 }),
{
    AsyncWrite { write_fd: fd, buf, len, close_fd: fd, wake_pid: pid, wake_key: read_fd, ret: 0 }
}

/// Handles an asynchronous read: not served, the answer is -1.
pub fn async_sys_read(fd: usize, buf: usize, len: usize, tid: usize, pid: usize, thread_id: usize) -> (r: isize)
    ensures
        r == -1,
{
    -1
}

} // verus!
