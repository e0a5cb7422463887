//! The decisions of the runtime's per-thread coroutine loops. The loops
//! themselves, which poll futures, live with the caller: each round it asks
//! `next` what to do, performs it, and reports a poll result to `finish`.
use vstd::prelude::*;
use std::collections::BTreeSet;
use std::sync::Arc;
use crate::config::{PRIO_NUM, MAX_USER, MAX_THREAD};
use crate::rt::manager::ManagerTable;
use crate::rt::scheduler::{TaskId, Scheduler};

verus! {

broadcast use vstd::std_specs::btree::group_btree_axioms, vstd::laws_cmp::group_laws_cmp;

/// What a coroutine loop does next.
pub enum LoopStep<T> {
    /// No task is left: leave the loop.
    Stop,
    /// Nothing is ready but some task is waiting: give the CPU away and retry.
    Yield,
    /// Poll task `tid`.
    Run(usize, Arc<T>),
}

/// Schedules coroutine `task` (id `tid`, priority `prio`) on thread
/// `thread_id` of space `pid`.
pub fn add_task_with_priority<T>(managers: &mut ManagerTable<T>, task: Arc<T>, prio: usize, pid: usize, thread_id: usize, tid: usize)
    requires
        old(managers).wf(),
        prio < PRIO_NUM,
        pid < MAX_USER,
        thread_id < MAX_THREAD,
        old(managers).at(pid as int, thread_id as int).sched().pending().len() < usize::MAX,
    ensures
        final(managers).wf(),
        final(managers).at(pid as int, thread_id as int).sched().pending()
            == old(managers).at(pid as int, thread_id as int).sched().pending().insert(TaskId { tid, prio }),
        final(managers).at(pid as int, thread_id as int).sched().pushed(
            old(managers).at(pid as int, thread_id as int).sched(), TaskId { tid, prio }),
        final(managers).at(pid as int, thread_id as int).tasks_view()
            == old(managers).at(pid as int, thread_id as int).tasks_view().insert(tid, task),
        final(managers).at(pid as int, thread_id as int).prios()
            == old(managers).at(pid as int, thread_id as int).prios().insert(tid, prio),
        forall|i: int, j: int| 0 <= i < MAX_USER && 0 <= j < MAX_THREAD && (i != pid || j != thread_id)
            ==> #[trigger] final(managers).at(i, j) == old(managers).at(i, j),
{
    managers.add(pid, thread_id, task, tid, prio);
}

/// The loop of a user thread: the ids of its tasks whose last poll was
/// `Pending`.
pub struct UserThreadLoop {
    wait_task: BTreeSet<usize>,
}

impl View for UserThreadLoop {
    type V = Set<usize>;

    closed spec fn view(&self) -> Set<usize> {
        self.wait_task@
    }
}

impl UserThreadLoop {
    /// A loop with no waiting task.
    pub fn new() -> (r: Self)
        ensures
            r@ == Set::<usize>::empty(),
    {
        UserThreadLoop { wait_task: BTreeSet::new() }
    }

    /// Fetches the next task of thread `thread_id` of space `pid`: runs it
    /// when there is one, otherwise stops when no task is waiting and yields
    /// when some is.
    pub fn next<T>(&self, managers: &mut ManagerTable<T>, pid: usize, thread_id: usize) -> (r: LoopStep<T>)
        requires
            old(managers).wf(),
            pid < MAX_USER,
            thread_id < MAX_THREAD,
        ensures
            final(managers).wf(),
            final(managers).at(pid as int, thread_id as int).tasks_view() == old(managers).at(pid as int, thread_id as int).tasks_view(),
            final(managers).at(pid as int, thread_id as int).prios() == old(managers).at(pid as int, thread_id as int).prios(),
            final(managers).at(pid as int, thread_id as int).sched().popped(old(managers).at(pid as int, thread_id as int).sched()),
            forall|i: int, j: int| 0 <= i < MAX_USER && 0 <= j < MAX_THREAD && (i != pid || j != thread_id)
                ==> #[trigger] final(managers).at(i, j) == old(managers).at(i, j),
            ({
                let m = old(managers).at(pid as int, thread_id as int);
                match m.sched().next_task() {
                    Some(t) => {
                        &&& final(managers).at(pid as int, thread_id as int).sched().pending() == m.sched().pending().remove(t)
                        &&& if m.tasks_view().contains_key(t.tid) {
                            r == LoopStep::Run(t.tid, m.tasks_view()[t.tid])
                        } else if self@.is_empty() {
                            r is Stop
                        } else {
                            r is Yield
                        }
                    },
                    None => {
                        &&& final(managers).at(pid as int, thread_id as int).sched().pending() == m.sched().pending()
                        &&& if self@.is_empty() { r is Stop } else { r is Yield }
                    },
                }
            }),
    {
        let task = managers.fetch(pid, thread_id);
        match task {
            None => {
                if self.wait_task.is_empty() {
                    LoopStep::Stop
                } else {
                    LoopStep::Yield
                }
            },
            Some(t) => {
                let tid = managers.current(pid, thread_id);
                LoopStep::Run(tid.unwrap(), t)
            },
        }
    }

    /// Records the poll result of task `tid`: finished tasks stop waiting,
    /// pending ones wait.
    pub fn finish(&mut self, tid: usize, ready: bool)
        ensures
            final(self)@ == (if ready { old(self)@.remove(tid) } else { old(self)@.insert(tid) }),
    {
        if ready {
            self.wait_task.remove(&tid);
        } else {
            self.wait_task.insert(tid);
        }
    }
}

/// The kernel's coroutine loop: the id of the coroutine being polled.
pub struct KernelThreadLoop {
    cur_coroutine: usize,
}

impl KernelThreadLoop {
    /// The id of the coroutine being polled (0 before the first one).
    pub closed spec fn current(&self) -> usize {
        self.cur_coroutine
    }

    /// A loop that has polled nothing yet.
    pub fn new() -> (r: Self)
        ensures
            r.current() == 0,
    {
        KernelThreadLoop { cur_coroutine: 0 }
    }

    /// Fetches the next kernel task (space 0, thread 0) and makes it the
    /// current coroutine; `None` ends the loop.
    pub fn next<T>(&mut self, managers: &mut ManagerTable<T>) -> (r: Option<Arc<T>>)
        requires
            old(managers).wf(),
        ensures
            final(managers).wf(),
            final(managers).at(0, 0).tasks_view() == old(managers).at(0, 0).tasks_view(),
            final(managers).at(0, 0).prios() == old(managers).at(0, 0).prios(),
            final(managers).at(0, 0).sched().popped(old(managers).at(0, 0).sched()),
            forall|i: int, j: int| 0 <= i < MAX_USER && 0 <= j < MAX_THREAD && (i != 0 || j != 0)
                ==> #[trigger] final(managers).at(i, j) == old(managers).at(i, j),
            ({
                let m = old(managers).at(0, 0);
                match m.sched().next_task() {
                    Some(t) => {
                        &&& final(managers).at(0, 0).sched().pending() == m.sched().pending().remove(t)
                        &&& if m.tasks_view().contains_key(t.tid) {
                            r == Some(m.tasks_view()[t.tid]) && final(self).current() == t.tid
                        } else {
                            r == None::<Arc<T>> && final(self).current() == old(self).current()
                        }
                    },
                    None => {
                        &&& final(managers).at(0, 0).sched().pending() == m.sched().pending()
                        &&& r == None::<Arc<T>>
                        &&& final(self).current() == old(self).current()
                    },
                }
            }),
    {
        let task = managers.fetch(0, 0);
        if task.is_some() {
            let tid = managers.current(0, 0);
            self.cur_coroutine = tid.unwrap();
        }
        task
    }
}

/// The id of the kernel coroutine being polled.
pub fn kernel_current_corotine(kernel_loop: &KernelThreadLoop) -> (r: usize)
    ensures
        r == kernel_loop.current(),
{
    kernel_loop.cur_coroutine
}

} // verus!
