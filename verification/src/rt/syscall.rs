//! The runtime's own system calls, as requests: the caller traps into the
//! kernel with `id` in `a7` and `args` in `a0..a2`, and gets `a0` back.
use vstd::prelude::*;

verus! {

/// System call number of `write`.
pub const SYSCALL_WRITE: usize = 64;

/// System call number of the timer-interrupt switch.
pub const SYSCALL_SET_TIMER_INT: usize = 250;

/// System call number of `yield`.
pub const SYSCALL_YIELD: usize = 124;

/// A system call to make: its number and its three arguments.
#[derive(Debug, Clone, Copy)]
pub struct SyscallRequest {
    pub id: usize,
    pub args: [usize; 3],
}

/// Writes `buffer_len` bytes at address `buffer_ptr` to file `fd`.
pub fn sys_write(fd: usize, buffer_ptr: usize, buffer_len: usize) -> (r: SyscallRequest)
    ensures
        r.id == SYSCALL_WRITE,
        r.args@ == seq![fd, buffer_ptr, buffer_len],
{
    SyscallRequest { id: SYSCALL_WRITE, args: [fd, buffer_ptr, buffer_len] }
}

/// Switches the timer interrupt on (`enable == 1`) or off (`enable == 0`).
pub fn sys_set_timer_interrupt(enable: usize) -> (r: SyscallRequest)
    ensures
        r.id == SYSCALL_SET_TIMER_INT,
        r.args@ == seq![enable, 0usize, 0usize],
{
    SyscallRequest { id: SYSCALL_SET_TIMER_INT, args: [enable, 0, 0] }
}

/// Gives the CPU away.
pub fn sys_yield() -> (r: SyscallRequest)
    ensures
        r.id == SYSCALL_YIELD,
        r.args@ == seq![0usize, 0usize, 0usize],
{
    SyscallRequest { id: SYSCALL_YIELD, args: [0, 0, 0] }
}

/// Writes `buffer_len` bytes at address `buffer_ptr` to file `fd`.
pub fn write(fd: usize, buffer_ptr: usize, buffer_len: usize) -> (r: SyscallRequest)
    ensures
        r.id == SYSCALL_WRITE,
        r.args@ == seq![fd, buffer_ptr, buffer_len],
{
    sys_write(fd, buffer_ptr, buffer_len)
}

/// Switches the timer interrupt on.
pub fn enable_timer_interrupt() -> (r: SyscallRequest)
    ensures
        r.id == SYSCALL_SET_TIMER_INT,
        r.args@ == seq![1usize, 0usize, 0usize],
{
    sys_set_timer_interrupt(1)
}

/// Switches the timer interrupt off.
pub fn disable_timer_interrupt() -> (r: SyscallRequest)
    ensures
        r.id == SYSCALL_SET_TIMER_INT,
        r.args@ == seq![0usize, 0usize, 0usize],
{
    sys_set_timer_interrupt(0)
}

/// Gives the CPU away (the kernel's answer is dropped).
pub fn uyield() -> (r: SyscallRequest)
    ensures
        r.id == SYSCALL_YIELD,
        r.args@ == seq![0usize, 0usize, 0usize],
{
    sys_yield()
}

} // verus!
