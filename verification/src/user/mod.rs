//! The user library's system-call interface, as requests: each call names
//! the kernel service and its arguments (addresses as plain numbers); the
//! program traps with it and gets the kernel's answer back.
pub mod syscall6;

use vstd::prelude::*;
use crate::user::syscall6::{Syscall6, ASYNC_SYSCALL_READ, ASYNC_SYSCALL_WRITE, async_sys_read, async_sys_write};

verus! {

/// Flags of `open`.
#[derive(PartialEq, Eq, Structural, Debug, Clone, Copy)]
pub struct OpenFlags {
    pub bits: u32,
}

/// Open for reading only.
pub const OPEN_RDONLY: u32 = 0;
/// Open for writing only.
pub const OPEN_WRONLY: u32 = 1;
/// Open for reading and writing.
pub const OPEN_RDWR: u32 = 2;
/// Create the file when missing.
pub const OPEN_CREATE: u32 = 512;
/// Truncate the file.
pub const OPEN_TRUNC: u32 = 1024;

/// Signal `SIGINT`.
pub const SIGINT: i32 = 4;
/// Signal `SIGILL`.
pub const SIGILL: i32 = 16;
/// Signal `SIGABRT`.
pub const SIGABRT: i32 = 64;
/// Signal `SIGFPE`.
pub const SIGFPE: i32 = 256;
/// Signal `SIGSEGV`.
pub const SIGSEGV: i32 = 2048;

/// A kernel service to call, with its arguments.
#[derive(PartialEq, Eq, Structural, Debug, Clone, Copy)]
pub enum Syscall {
    Dup { fd: usize },
    Open { path: usize, flags: u32 },
    Close { fd: usize },
    Pipe { pipe_fd: usize },
    Read { fd: usize, buf: usize, len: usize },
    Write { fd: usize, buf: usize, len: usize },
    Exit { exit_code: i32 },
    Yield,
    GetTime,
    GetPid,
    Fork,
    Exec { path: usize, args: usize },
    WaitPid { child: isize, exit_code_addr: usize },
    Kill { pid: usize, signal: i32 },
    Sleep { sleep_ms: usize },
    ThreadCreate { entry: usize, arg: usize },
    GetTid,
    WaitTid { tid: usize },
    MutexCreate { blocking: bool },
    MutexLock { mutex_id: usize },
    MutexUnlock { mutex_id: usize },
    SemaphoreCreate { res_count: usize },
    SemaphoreUp { sem_id: usize },
    SemaphoreDown { sem_id: usize },
    CondvarCreate { arg: usize },
    CondvarSignal { condvar_id: usize },
    CondvarWait { condvar_id: usize, mutex_id: usize },
    CreateDesktop,
    InitCoroutine { prio_addr: usize },
}

/// Duplicates file descriptor `fd`.
pub fn dup(fd: usize) -> (r: Syscall)
    ensures r == (Syscall::Dup { fd }),
{
    Syscall::Dup { fd }
}

/// Opens the NUL-terminated path at address `path` with `flags`.
pub fn open(path: usize, flags: OpenFlags) -> (r: Syscall)
    ensures r == (Syscall::Open { path, flags: flags.bits }),
{
    Syscall::Open { path, flags: flags.bits }
}

/// Closes `fd`.
pub fn close(fd: usize) -> (r: Syscall)
    ensures r == (Syscall::Close { fd }),
{
    Syscall::Close { fd }
}

/// Creates a pipe; its two descriptors go to the array at address `pipe_fd`.
pub fn pipe(pipe_fd: usize) -> (r: Syscall)
    ensures r == (Syscall::Pipe { pipe_fd }),
{
    Syscall::Pipe { pipe_fd }
}

/// Reads up to `len` bytes of `fd` into the buffer at address `buf`.
pub fn read(fd: usize, buf: usize, len: usize) -> (r: Syscall)
    ensures r == (Syscall::Read { fd, buf, len }),
{
    Syscall::Read { fd, buf, len }
}

/// Writes the `len` bytes at address `buf` to `fd`.
pub fn write(fd: usize, buf: usize, len: usize) -> (r: Syscall)
    ensures r == (Syscall::Write { fd, buf, len }),
{
    Syscall::Write { fd, buf, len }
}

/// Ends the process with `exit_code`.
pub fn exit(exit_code: i32) -> (r: Syscall)
    ensures r == (Syscall::Exit { exit_code }),
{
    Syscall::Exit { exit_code }
}

/// Gives the CPU away.
pub fn yield_() -> (r: Syscall)
    ensures r == Syscall::Yield,
{
    Syscall::Yield
}

/// The current time in milliseconds.
pub fn get_time() -> (r: Syscall)
    ensures r == Syscall::GetTime,
{
    Syscall::GetTime
}

/// The process id.
pub fn getpid() -> (r: Syscall)
    ensures r == Syscall::GetPid,
{
    Syscall::GetPid
}

/// Forks the process.
pub fn fork() -> (r: Syscall)
    ensures r == Syscall::Fork,
{
    Syscall::Fork
}

/// Runs the program at path address `path` with the argument array at `args`.
pub fn exec(path: usize, args: usize) -> (r: Syscall)
    ensures r == (Syscall::Exec { path, args }),
{
    Syscall::Exec { path, args }
}

/// What a waiting call does with the kernel's answer.
#[derive(PartialEq, Eq, Structural, Debug, Clone, Copy)]
pub enum WaitStep {
    /// The awaited child or thread is still running (`-2`): yield and ask again.
    Retry,
    /// The call is over with this result.
    Done(isize),
}

/// The answer `-2` of a waiting call means "not yet": yield and ask again;
/// any other answer (`-1` or an id or exit code) ends the call.
pub fn wait_step(ret: isize) -> (r: WaitStep)
    ensures
        r == (if ret == -2 { WaitStep::Retry } else { WaitStep::Done(ret) }),
{
    if ret == -2 {
        WaitStep::Retry
    } else {
        WaitStep::Done(ret)
    }
}

/// Waits for any child; its exit code goes to address `exit_code`. Repeat
/// while `wait_step` of the answer says `Retry`, yielding in between.
pub fn wait(exit_code: usize) -> (r: Syscall)
    ensures r == (Syscall::WaitPid { child: -1isize, exit_code_addr: exit_code }),
{
    Syscall::WaitPid { child: -1, exit_code_addr: exit_code }
}

/// Waits for child `pid`; its exit code goes to address `exit_code`. Repeat
/// while `wait_step` of the answer says `Retry`, yielding in between.
pub fn waitpid(pid: usize, exit_code: usize) -> (r: Syscall)
    ensures r == (Syscall::WaitPid { child: pid as isize, exit_code_addr: exit_code }),
{
    Syscall::WaitPid { child: pid as isize, exit_code_addr: exit_code }
}

/// Asks once whether child `pid` has exited (`-2`: not yet).
pub fn waitpid_nb(pid: usize, exit_code: usize) -> (r: Syscall)
    ensures r == (Syscall::WaitPid { child: pid as isize, exit_code_addr: exit_code }),
{
    Syscall::WaitPid { child: pid as isize, exit_code_addr: exit_code }
}

/// Sends `signal` to process `pid`.
pub fn kill(pid: usize, signal: i32) -> (r: Syscall)
    ensures r == (Syscall::Kill { pid, signal }),
{
    Syscall::Kill { pid, signal }
}

/// Sleeps for `sleep_ms` milliseconds.
pub fn sleep(sleep_ms: usize) -> (r: Syscall)
    ensures r == (Syscall::Sleep { sleep_ms }),
{
    Syscall::Sleep { sleep_ms }
}

/// Starts a thread at `entry` with argument `arg`.
pub fn thread_create(entry: usize, arg: usize) -> (r: Syscall)
    ensures r == (Syscall::ThreadCreate { entry, arg }),
{
    Syscall::ThreadCreate { entry, arg }
}

/// The thread id.
pub fn gettid() -> (r: Syscall)
    ensures r == Syscall::GetTid,
{
    Syscall::GetTid
}

/// Waits for thread `tid` to exit. Repeat while `wait_step` of the answer
/// says `Retry`, yielding in between.
pub fn waittid(tid: usize) -> (r: Syscall)
    ensures r == (Syscall::WaitTid { tid }),
{
    Syscall::WaitTid { tid }
}

/// Creates a spinning mutex.
pub fn mutex_create() -> (r: Syscall)
    ensures r == (Syscall::MutexCreate { blocking: false }),
{
    Syscall::MutexCreate { blocking: false }
}

/// Creates a blocking mutex.
pub fn mutex_blocking_create() -> (r: Syscall)
    ensures r == (Syscall::MutexCreate { blocking: true }),
{
    Syscall::MutexCreate { blocking: true }
}

/// Locks mutex `mutex_id`.
pub fn mutex_lock(mutex_id: usize) -> (r: Syscall)
    ensures r == (Syscall::MutexLock { mutex_id }),
{
    Syscall::MutexLock { mutex_id }
}

/// Unlocks mutex `mutex_id`.
pub fn mutex_unlock(mutex_id: usize) -> (r: Syscall)
    ensures r == (Syscall::MutexUnlock { mutex_id }),
{
    Syscall::MutexUnlock { mutex_id }
}

/// Creates a semaphore with `res_count` resources.
pub fn semaphore_create(res_count: usize) -> (r: Syscall)
    ensures r == (Syscall::SemaphoreCreate { res_count }),
{
    Syscall::SemaphoreCreate { res_count }
}

/// Releases one resource of semaphore `sem_id`.
pub fn semaphore_up(sem_id: usize) -> (r: Syscall)
    ensures r == (Syscall::SemaphoreUp { sem_id }),
{
    Syscall::SemaphoreUp { sem_id }
}

/// Takes one resource of semaphore `sem_id`.
pub fn semaphore_down(sem_id: usize) -> (r: Syscall)
    ensures r == (Syscall::SemaphoreDown { sem_id }),
{
    Syscall::SemaphoreDown { sem_id }
}

/// Creates a condition variable.
pub fn condvar_create() -> (r: Syscall)
    ensures r == (Syscall::CondvarCreate { arg: 0 }),
{
    Syscall::CondvarCreate { arg: 0 }
}

/// Signals condition variable `condvar_id`.
pub fn condvar_signal(condvar_id: usize) -> (r: Syscall)
    ensures r == (Syscall::CondvarSignal { condvar_id }),
{
    Syscall::CondvarSignal { condvar_id }
}

/// Waits on condition variable `condvar_id`, releasing mutex `mutex_id`.
pub fn condvar_wait(condvar_id: usize, mutex_id: usize) -> (r: Syscall)
    ensures r == (Syscall::CondvarWait { condvar_id, mutex_id }),
{
    Syscall::CondvarWait { condvar_id, mutex_id }
}

/// Opens the desktop.
pub fn create_desktop() -> (r: Syscall)
    ensures r == Syscall::CreateDesktop,
{
    Syscall::CreateDesktop
}

/// Hands the kernel the address `prio_addr` of the word where this space
/// publishes the priority it currently serves.
pub fn init_coroutine(prio_addr: usize) -> (r: Syscall)
    ensures r == (Syscall::InitCoroutine { prio_addr }),
{
    Syscall::InitCoroutine { prio_addr }
}

/// Starts an asynchronous read (see `async_sys_read`).
pub fn async_read(fd: usize, buffer_ptr: usize, buffer_len: usize, tid: usize, pid: usize, thread_id: usize) -> (r: Syscall6)
    ensures
        r.id == ASYNC_SYSCALL_READ,
        r.args@ == seq![fd, buffer_ptr, buffer_len, tid, pid, thread_id],
{
    async_sys_read(fd, buffer_ptr, buffer_len, tid, pid, thread_id)
}

/// Starts an asynchronous write (see `async_sys_write`).
pub fn async_write(fd: usize, buffer_ptr: usize, buffer_len: usize, tid: usize, pid: usize, read_fd: usize) -> (r: Syscall6)
    ensures
        r.id == ASYNC_SYSCALL_WRITE,
        r.args@ == seq![fd, buffer_ptr, buffer_len, tid, pid, read_fd],
{
    async_sys_write(fd, buffer_ptr, buffer_len, tid, pid, read_fd)
}

/// The request a first poll of a call with parameters `p` makes, as its
/// number and arguments: a read or a write with the call's descriptor,
/// buffer, length, task, space and thread; nothing for another call type.
pub open spec fn first_request(p: (usize, usize, usize, usize, usize, usize, usize)) -> Option<(usize, Seq<usize>)> {
    if p.0 == ASYNC_SYSCALL_READ || p.0 == ASYNC_SYSCALL_WRITE {
        Some((p.0, seq![p.1, p.2, p.3, p.4, p.5, p.6]))
    } else {
        None
    }
}

/// A request as its number and arguments.
pub open spec fn request_of(r: Option<Syscall6>) -> Option<(usize, Seq<usize>)> {
    match r {
        Some(q) => Some((q.id, q.args@)),
        None => None,
    }
}

/// `after` and the request `r` are what a `submit` of `before` gives.
pub open spec fn submit_step(before: AsyncCall, r: Option<Syscall6>, after: AsyncCall) -> bool {
    &&& after.params() == before.params()
    &&& before.submitted() == 0 ==> after.submitted() == 1 && request_of(r) == first_request(before.params())
    &&& before.submitted() != 0 ==> after.submitted() == before.submitted() && r is None
}

/// Exactly one submission per call: over any number of polls of a call not
/// yet submitted, the first poll makes the call's request (the read or the
/// write with the call's own parameters, nothing for another call type) and
/// every later poll makes none.
pub proof fn async_call_submits_once(states: Seq<AsyncCall>, results: Seq<Option<Syscall6>>)
    requires
        states.len() == results.len() + 1,
        states[0].submitted() == 0,
        forall|n: int| 0 <= n < results.len() ==> submit_step(#[trigger] states[n], results[n], states[n + 1]),
    ensures
        results.len() > 0 ==> request_of(results[0]) == first_request(states[0].params()),
        forall|n: int| 1 <= n < results.len() ==> #[trigger] results[n] is None,
{
    assert forall|n: int| 1 <= n < states.len() implies #[trigger] states[n].submitted() == 1
        && states[n].params() == states[0].params() by {
        lemma_submitted_once(states, results, n);
    }
    if results.len() > 0 {
        assert(submit_step(states[0], results[0], states[1]));
    }
    assert forall|n: int| 1 <= n < results.len() implies #[trigger] results[n] is None by {
        assert(submit_step(states[n], results[n], states[n + 1]));
        assert(states[n].submitted() == 1);
    }
}

/// After `n >= 1` polls the call counts as submitted once, with its
/// parameters unchanged.
proof fn lemma_submitted_once(states: Seq<AsyncCall>, results: Seq<Option<Syscall6>>, n: int)
    requires
        states.len() == results.len() + 1,
        states[0].submitted() == 0,
        forall|k: int| 0 <= k < results.len() ==> submit_step(#[trigger] states[k], results[k], states[k + 1]),
        1 <= n < states.len(),
    ensures
        states[n].submitted() == 1,
        states[n].params() == states[0].params(),
    decreases n,
{
    assert(submit_step(states[n - 1], results[n - 1], states[n]));
    if n > 1 {
        lemma_submitted_once(states, results, n - 1);
    }
}

/// An asynchronous system call awaited by coroutine `tid`: the first poll
/// submits it, and every poll is ready once the runtime has recorded the
/// completion callback for `tid`.
pub struct AsyncCall {
    call_type: usize,
    fd: usize,
    buffer_ptr: usize,
    buffer_len: usize,
    tid: usize,
    pid: usize,
    thread_id: usize,
    cnt: usize,
}

impl AsyncCall {
    /// How many times the call was submitted.
    pub closed spec fn submitted(&self) -> usize {
        self.cnt
    }

    /// The call's parameters: type, descriptor, buffer, length, task, space, thread.
    pub closed spec fn params(&self) -> (usize, usize, usize, usize, usize, usize, usize) {
        (self.call_type, self.fd, self.buffer_ptr, self.buffer_len, self.tid, self.pid, self.thread_id)
    }

    /// A call not yet submitted.
    pub fn new(call_type: usize, fd: usize, buffer_ptr: usize, buffer_len: usize, tid: usize, pid: usize, thread_id: usize) -> (r: Self)
        ensures
            r.submitted() == 0,
            r.params() == (call_type, fd, buffer_ptr, buffer_len, tid, pid, thread_id),
    {
        AsyncCall { call_type, fd, buffer_ptr, buffer_len, tid, pid, thread_id, cnt: 0 }
    }

    /// The coroutine waiting on this call.
    pub fn tid(&self) -> (r: usize)
        ensures
            r == self.params().4,
    {
        self.tid
    }

    /// The submission part of a poll: on the first poll, the read or write
    /// request to make (nothing for another call type) and the call counts
    /// as submitted; later polls submit nothing. Whether the poll is ready is
    /// then the runtime's `check_callback` of `tid()`.
    pub fn submit(&mut self) -> (r: Option<Syscall6>)
        ensures
            final(self).params() == old(self).params(),
            old(self).submitted() == 0 ==> final(self).submitted() == 1,
            old(self).submitted() != 0 ==> final(self).submitted() == old(self).submitted() && r is None,
            submit_step(*old(self), r, *final(self)),
            old(self).submitted() == 0 ==> {
                let p = old(self).params();
                if p.0 == ASYNC_SYSCALL_READ {
                    r matches Some(q) && q.id == ASYNC_SYSCALL_READ && q.args@ == seq![p.1, p.2, p.3, p.4, p.5, p.6]
                } else if p.0 == ASYNC_SYSCALL_WRITE {
                    r matches Some(q) && q.id == ASYNC_SYSCALL_WRITE && q.args@ == seq![p.1, p.2, p.3, p.4, p.5, p.6]
                } else {
                    r is None
                }
            },
    {
        let mut r = None;
        if self.cnt == 0 {
            if self.call_type == ASYNC_SYSCALL_READ {
                r = Some(async_sys_read(self.fd, self.buffer_ptr, self.buffer_len, self.tid, self.pid, self.thread_id));
            } else if self.call_type == ASYNC_SYSCALL_WRITE {
                r = Some(async_sys_write(self.fd, self.buffer_ptr, self.buffer_len, self.tid, self.pid, self.thread_id));
            }
            self.cnt = self.cnt + 1;
        }
        r
    }
}

/// A future that needs two polls: it counts its polls and is ready on
/// every even-numbered one.
pub struct ReadHelper(pub usize);

impl ReadHelper {
    /// A helper polled zero times.
    pub fn new() -> (r: Self)
        ensures
            r.0 == 0,
    {
        ReadHelper(0)
    }

    /// Counts one poll; ready exactly when the count is now even.
    pub fn poll_ready(&mut self) -> (r: bool)
        requires
            old(self).0 < usize::MAX,
        ensures
            final(self).0 == old(self).0 + 1,
            r == (final(self).0 % 2 == 0),
    {
        self.0 = self.0 + 1;
        let n = self.0;
        assert((n & 1usize) == n % 2) by (bit_vector);
        (n & 1) != 1
    }
}

} // verus!
