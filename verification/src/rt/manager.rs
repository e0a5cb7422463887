use vstd::prelude::*;
use std::collections::BTreeMap;
use std::sync::Arc;
use crate::config::{PRIO_NUM, CAP};
use crate::rt::scheduler::{Scheduler, TaskId};

verus! {

broadcast use vstd::std_specs::btree::group_btree_axioms, vstd::laws_cmp::group_laws_cmp,
    vstd::std_specs::vec::group_vec_axioms;

/// A wake-up that could not be delivered yet: task `tid` of thread
/// `thread_id` of space `pid`, kept while `is_valid` holds.
#[derive(PartialEq, Eq, Structural, Debug, Clone, Copy)]
pub struct CallbackTask {
    pub pid: usize,
    pub thread_id: usize,
    pub tid: usize,
    pub is_valid: bool,
}

/// The coroutines of one thread: every task by id, its priority, the
/// scheduler that orders the ready ones, and the id last handed out.
pub struct Manager<T, S> where S: Scheduler {
    tasks: BTreeMap<usize, Arc<T>>,
    scheduler: S,
    prio_map: BTreeMap<usize, usize>,
    current: Option<usize>,
}

impl<T, S: Scheduler> Manager<T, S> {
    /// Every task by id.
    pub closed spec fn tasks_view(&self) -> Map<usize, Arc<T>> {
        self.tasks@
    }

    /// Every task's priority by id.
    pub closed spec fn prios(&self) -> Map<usize, usize> {
        self.prio_map@
    }

    /// The scheduler.
    pub closed spec fn sched(&self) -> S {
        self.scheduler
    }

    /// The id of the task last handed out by `fetch`.
    pub closed spec fn current_tid(&self) -> Option<usize> {
        self.current
    }

    /// The scheduler is consistent and every recorded priority is a level.
    pub open spec fn wf(&self) -> bool {
        &&& self.sched().wf()
        &&& forall|k: usize| #[trigger] self.prios().contains_key(k) ==> self.prios()[k] < PRIO_NUM
    }

    /// What `get(tid)` returns: the task registered under `tid`, if any.
    pub open spec fn task_of(&self, tid: usize) -> Option<Arc<T>> {
        if self.tasks_view().contains_key(tid) {
            Some(self.tasks_view()[tid])
        } else {
            None
        }
    }

    /// What `re_back(tid)` returns: whether a priority is recorded for `tid`.
    pub open spec fn wakeable(&self, tid: usize) -> bool {
        self.prios().contains_key(tid)
    }

    /// The scheduler of ready tasks.
    pub fn scheduler(&self) -> (r: &S)
        ensures
            *r == self.sched(),
    {
        &self.scheduler
    }

    /// A manager with no tasks around `scheduler`.
    pub fn new(scheduler: S) -> (r: Self)
        ensures
            r.tasks_view() == Map::<usize, Arc<T>>::empty(),
            r.prios() == Map::<usize, usize>::empty(),
            r.sched() == scheduler,
            r.current_tid() == None::<usize>,
    {
        Manager { tasks: BTreeMap::new(), scheduler, prio_map: BTreeMap::new(), current: None }
    }

    /// Pops the next scheduled id; when there is one it becomes the current
    /// id and its task (if still registered) is returned.
    pub fn fetch(&mut self) -> (r: Option<Arc<T>>)
        requires
            old(self).wf(),
        ensures
            final(self).wf(),
            final(self).sched().popped(old(self).sched()),
            final(self).tasks_view() == old(self).tasks_view(),
            final(self).prios() == old(self).prios(),
            match old(self).sched().next_task() {
                Some(t) => {
                    &&& old(self).sched().pending().count(t) > 0
                    &&& final(self).sched().pending() == old(self).sched().pending().remove(t)
                    &&& final(self).current_tid() == Some(t.tid)
                    &&& r == (if old(self).tasks_view().contains_key(t.tid) {
                        Some(old(self).tasks_view()[t.tid])
                    } else {
                        None
                    })
                },
                None => {
                    &&& final(self).sched().pending() == old(self).sched().pending()
                    &&& final(self).current_tid() == old(self).current_tid()
                    &&& r == None::<Arc<T>>
                },
            },
    {
        let task_id = self.scheduler.pop();
        assert(self.prios() == old(self).prios());
        if let Some(tid) = task_id {
            self.current = Some(tid.tid);
            return self.get(tid.tid);
        }
        None
    }

    /// The task registered under `tid`, if any.
    pub fn get(&self, tid: usize) -> (r: Option<Arc<T>>)
        ensures
            r == self.task_of(tid),
    {
        if let Some(ret) = self.tasks.get(&tid) {
            return Some(ret.clone());
        }
        None
    }

    /// Puts task `tid` back on the scheduler at its recorded priority;
    /// `false` (and nothing changes) when no priority is recorded for it.
    pub fn re_back(&mut self, tid: usize) -> (r: bool)
        requires
            old(self).wf(),
            old(self).sched().pending().len() < usize::MAX,
        ensures
            final(self).wf(),
            final(self).tasks_view() == old(self).tasks_view(),
            final(self).prios() == old(self).prios(),
            final(self).current_tid() == old(self).current_tid(),
            r == old(self).wakeable(tid),
            r ==> final(self).sched().pending() == old(self).sched().pending().insert(
                TaskId { tid, prio: old(self).prios()[tid] },
            ),
            r ==> final(self).sched().pushed(old(self).sched(), TaskId { tid, prio: old(self).prios()[tid] }),
            !r ==> final(self).sched() == old(self).sched(),
    {
        let op_prio = match self.prio_map.get(&tid) {
            Some(p) => Some(*p),
            None => None,
        };
        match op_prio {
            Some(prio) => self.scheduler.push(TaskId { tid, prio }),
            _ => return false,
        }
        true
    }

    /// Registers `task` under `tid` with priority `prio` and schedules it.
    pub fn add(&mut self, task: Arc<T>, tid: usize, prio: usize)
        requires
            old(self).wf(),
            prio < PRIO_NUM,
            old(self).sched().pending().len() < usize::MAX,
        ensures
            final(self).wf(),
            final(self).sched().pending() == old(self).sched().pending().insert(TaskId { tid, prio }),
            final(self).sched().pushed(old(self).sched(), TaskId { tid, prio }),
            final(self).tasks_view() == old(self).tasks_view().insert(tid, task),
            final(self).prios() == old(self).prios().insert(tid, prio),
            final(self).current_tid() == old(self).current_tid(),
    {
        self.scheduler.push(TaskId { tid, prio });
        self.tasks.insert(tid, task);
        self.prio_map.insert(tid, prio);
        proof {
            assert(self.prios() == old(self).prios().insert(tid, prio));
            assert forall|k: usize| #[trigger] self.prios().contains_key(k) implies self.prios()[k] < PRIO_NUM by {
                if k != tid {
                    assert(old(self).prios().contains_key(k));
                }
            }
        }
    }

    /// Forgets task `tid` and its priority (the scheduler is left alone).
    pub fn remove(&mut self, tid: usize)
        requires
            old(self).wf(),
        ensures
            final(self).wf(),
            final(self).tasks_view() == old(self).tasks_view().remove(tid),
            final(self).prios() == old(self).prios().remove(tid),
            final(self).sched() == old(self).sched(),
            final(self).current_tid() == old(self).current_tid(),
    {
        self.tasks.remove(&tid);
        self.prio_map.remove(&tid);
        proof {
            assert(self.prios() == old(self).prios().remove(tid));
            assert forall|k: usize| #[trigger] self.prios().contains_key(k) implies self.prios()[k] < PRIO_NUM by {
                assert(old(self).prios().contains_key(k));
            }
        }
    }

    /// The id of the task last handed out by `fetch`.
    pub fn current(&self) -> (r: Option<usize>)
        ensures
            r == self.current_tid(),
    {
        self.current
    }

    /// Whether the scheduler holds no task.
    pub fn empty(&self) -> (r: bool)
        requires
            self.wf(),
        ensures
            r == (self.sched().pending().len() == 0),
    {
        self.scheduler.empty()
    }
}

/// Per-task flags recording a completed wake-up, `CAP` of them.
pub struct CBTid {
    tids: Vec<bool>,
}

impl View for CBTid {
    type V = Seq<bool>;

    closed spec fn view(&self) -> Seq<bool> {
        self.tids@
    }
}

impl CBTid {
    /// Whether the flag of task `t` is raised (what `contains_tid(t)` returns).
    pub open spec fn raised(&self, t: int) -> bool {
        self@[t]
    }

    /// `CAP` cleared flags.
    pub fn new() -> (r: Self)
        ensures
            r@.len() == CAP,
            forall|i: int| 0 <= i < CAP ==> !#[trigger] r@[i],
    {
        let mut tids: Vec<bool> = Vec::new();
        let mut i: usize = 0;
        while i < CAP
            invariant
                i <= CAP,
                tids@.len() == i,
                forall|k: int| 0 <= k < i ==> !#[trigger] tids@[k],
            decreases CAP - i,
        {
            tids.push(false);
            i = i + 1;
        }
        CBTid { tids }
    }

    /// Raises the flag of task `t`.
    pub fn add(&mut self, t: usize)
        requires
            t < old(self)@.len(),
        ensures
            final(self)@ == old(self)@.update(t as int, true),
    {
        self.tids.set(t, true);
    }

    /// Tests and lowers the flag of task `t`: `true` exactly when it was raised.
    pub fn contains_tid(&mut self, t: usize) -> (r: bool)
        requires
            t < old(self)@.len(),
        ensures
            r == old(self).raised(t as int),
            final(self)@ == old(self)@.update(t as int, false),
    {
        if self.tids[t] == true {
            self.tids.set(t, false);
            return true;
        }
        proof {
            assert(old(self)@.update(t as int, false) =~= old(self)@);
        }
        false
    }
}

/// Whether task `tid` has a completed wake-up waiting, consuming it.
pub fn check_callback(cbtid: &mut CBTid, tid: usize) -> (r: bool)
    requires
        tid < old(cbtid)@.len(),
    ensures
        r == old(cbtid)@[tid as int],
        final(cbtid)@ == old(cbtid)@.update(tid as int, false),
{
    cbtid.contains_tid(tid)
}

} // verus!

verus! {

/// The managers of every (address space, thread) pair: `MAX_USER` rows of
/// `MAX_THREAD` managers, each over a strict-priority scheduler.
pub struct ManagerTable<T> {
    rows: Vec<Vec<Manager<T, crate::rt::scheduler::PrioScheduler>>>,
}

impl<T> ManagerTable<T> {
    /// The manager of thread `thread_id` of space `pid`.
    pub closed spec fn at(&self, pid: int, thread_id: int) -> Manager<T, crate::rt::scheduler::PrioScheduler> {
        self.rows@[pid]@[thread_id]
    }

    /// Full rows, every manager consistent.
    pub closed spec fn wf(&self) -> bool {
        &&& self.rows@.len() == crate::config::MAX_USER
        &&& forall|i: int| 0 <= i < crate::config::MAX_USER ==> #[trigger] self.rows@[i]@.len() == crate::config::MAX_THREAD
        &&& forall|i: int, j: int| 0 <= i < crate::config::MAX_USER && 0 <= j < crate::config::MAX_THREAD ==> #[trigger] self.rows@[i]@[j].wf()
    }

    /// A table of managers with no tasks and empty schedulers.
    pub fn new() -> (r: Self)
        ensures
            r.wf(),
            forall|i: int, j: int| 0 <= i < crate::config::MAX_USER && 0 <= j < crate::config::MAX_THREAD ==> {
                &&& (#[trigger] r.at(i, j)).tasks_view() == Map::<usize, Arc<T>>::empty()
                &&& r.at(i, j).prios() == Map::<usize, usize>::empty()
                &&& r.at(i, j).sched().pending().len() == 0
            },
    {
        let mut rows: Vec<Vec<Manager<T, crate::rt::scheduler::PrioScheduler>>> = Vec::new();
        let mut i: usize = 0;
        while i < crate::config::MAX_USER
            invariant
                i <= crate::config::MAX_USER,
                rows@.len() == i,
                forall|a: int| 0 <= a < i ==> #[trigger] rows@[a]@.len() == crate::config::MAX_THREAD,
                forall|a: int, b: int| 0 <= a < i && 0 <= b < crate::config::MAX_THREAD ==> {
                    &&& (#[trigger] rows@[a]@[b]).wf()
                    &&& rows@[a]@[b].tasks_view() == Map::<usize, Arc<T>>::empty()
                    &&& rows@[a]@[b].prios() == Map::<usize, usize>::empty()
                    &&& rows@[a]@[b].sched().pending().len() == 0
                },
            decreases crate::config::MAX_USER - i,
        {
            let mut row: Vec<Manager<T, crate::rt::scheduler::PrioScheduler>> = Vec::new();
            let mut j: usize = 0;
            while j < crate::config::MAX_THREAD
                invariant
                    j <= crate::config::MAX_THREAD,
                    row@.len() == j,
                    forall|b: int| 0 <= b < j ==> {
                        &&& (#[trigger] row@[b]).wf()
                        &&& row@[b].tasks_view() == Map::<usize, Arc<T>>::empty()
                        &&& row@[b].prios() == Map::<usize, usize>::empty()
                        &&& row@[b].sched().pending().len() == 0
                    },
                decreases crate::config::MAX_THREAD - j,
            {
                row.push(Manager::new(crate::rt::scheduler::PrioScheduler::new()));
                j = j + 1;
            }
            rows.push(row);
            i = i + 1;
        }
        ManagerTable { rows }
    }

    /// Puts task `tid` of thread `thread_id` of space `pid` back on its
    /// scheduler (see `Manager::re_back`); every other manager is left alone.
    pub fn re_back(&mut self, pid: usize, thread_id: usize, tid: usize) -> (r: bool)
        requires
            old(self).wf(),
            pid < crate::config::MAX_USER,
            thread_id < crate::config::MAX_THREAD,
            old(self).at(pid as int, thread_id as int).sched().pending().len() < usize::MAX,
        ensures
            final(self).wf(),
            r == old(self).at(pid as int, thread_id as int).prios().contains_key(tid),
            final(self).at(pid as int, thread_id as int).tasks_view() == old(self).at(pid as int, thread_id as int).tasks_view(),
            final(self).at(pid as int, thread_id as int).prios() == old(self).at(pid as int, thread_id as int).prios(),
            final(self).at(pid as int, thread_id as int).current_tid() == old(self).at(pid as int, thread_id as int).current_tid(),
            r ==> final(self).at(pid as int, thread_id as int).sched().pending()
                == old(self).at(pid as int, thread_id as int).sched().pending().insert(
                TaskId { tid, prio: old(self).at(pid as int, thread_id as int).prios()[tid] },
            ),
            r ==> final(self).at(pid as int, thread_id as int).sched().pushed(old(self).at(pid as int, thread_id as int).sched(), TaskId { tid, prio: old(self).at(pid as int, thread_id as int).prios()[tid] }),
            !r ==> final(self).at(pid as int, thread_id as int).sched() == old(self).at(pid as int, thread_id as int).sched(),
            forall|i: int, j: int| 0 <= i < crate::config::MAX_USER && 0 <= j < crate::config::MAX_THREAD && (i != pid || j != thread_id)
                ==> #[trigger] final(self).at(i, j) == old(self).at(i, j),
    {
        let r = self.rows[pid][thread_id].re_back(tid);
        proof {
            assert forall|i: int| 0 <= i < crate::config::MAX_USER implies #[trigger] self.rows@[i]@.len() == crate::config::MAX_THREAD by {
                if i != pid {
                    assert(self.rows@[i] == old(self).rows@[i]);
                }
            }
            assert forall|i: int, j: int| 0 <= i < crate::config::MAX_USER && 0 <= j < crate::config::MAX_THREAD && (i != pid || j != thread_id)
                implies #[trigger] self.at(i, j) == old(self).at(i, j) by {
                if i != pid {
                    assert(self.rows@[i] == old(self).rows@[i]);
                }
            }
            assert forall|i: int, j: int| 0 <= i < crate::config::MAX_USER && 0 <= j < crate::config::MAX_THREAD implies #[trigger] self.rows@[i]@[j].wf() by {
                if i != pid || j != thread_id {
                    assert(self.at(i, j) == old(self).at(i, j));
                }
            }
        }
        r
    }

    /// Runs `Manager::fetch` on the manager of thread `thread_id` of space `pid`.
    pub fn fetch(&mut self, pid: usize, thread_id: usize) -> (r: Option<Arc<T>>)
        requires
            old(self).wf(),
            pid < crate::config::MAX_USER,
            thread_id < crate::config::MAX_THREAD,
        ensures
            final(self).wf(),
            final(self).at(pid as int, thread_id as int).sched().popped(old(self).at(pid as int, thread_id as int).sched()),
            final(self).at(pid as int, thread_id as int).tasks_view() == old(self).at(pid as int, thread_id as int).tasks_view(),
            final(self).at(pid as int, thread_id as int).prios() == old(self).at(pid as int, thread_id as int).prios(),
            match old(self).at(pid as int, thread_id as int).sched().next_task() {
                Some(t) => {
                    &&& old(self).at(pid as int, thread_id as int).sched().pending().count(t) > 0
                    &&& final(self).at(pid as int, thread_id as int).sched().pending()
                        == old(self).at(pid as int, thread_id as int).sched().pending().remove(t)
                    &&& final(self).at(pid as int, thread_id as int).current_tid() == Some(t.tid)
                    &&& r == (if old(self).at(pid as int, thread_id as int).tasks_view().contains_key(t.tid) {
                        Some(old(self).at(pid as int, thread_id as int).tasks_view()[t.tid])
                    } else {
                        None
                    })
                },
                None => {
                    &&& final(self).at(pid as int, thread_id as int).sched().pending()
                        == old(self).at(pid as int, thread_id as int).sched().pending()
                    &&& final(self).at(pid as int, thread_id as int).current_tid()
                        == old(self).at(pid as int, thread_id as int).current_tid()
                    &&& r == None::<Arc<T>>
                },
            },
            forall|i: int, j: int| 0 <= i < crate::config::MAX_USER && 0 <= j < crate::config::MAX_THREAD && (i != pid || j != thread_id)
                ==> #[trigger] final(self).at(i, j) == old(self).at(i, j),
    {
        let r = self.rows[pid][thread_id].fetch();
        proof {
            assert forall|i: int| 0 <= i < crate::config::MAX_USER implies #[trigger] self.rows@[i]@.len() == crate::config::MAX_THREAD by {
                if i != pid {
                    assert(self.rows@[i] == old(self).rows@[i]);
                }
            }
            assert forall|i: int, j: int| 0 <= i < crate::config::MAX_USER && 0 <= j < crate::config::MAX_THREAD && (i != pid || j != thread_id)
                implies #[trigger] self.at(i, j) == old(self).at(i, j) by {
                if i != pid {
                    assert(self.rows@[i] == old(self).rows@[i]);
                }
            }
            assert forall|i: int, j: int| 0 <= i < crate::config::MAX_USER && 0 <= j < crate::config::MAX_THREAD implies #[trigger] self.rows@[i]@[j].wf() by {
                if i != pid || j != thread_id {
                    assert(self.at(i, j) == old(self).at(i, j));
                }
            }
        }
        r
    }

    /// Runs `Manager::add` on the manager of thread `thread_id` of space `pid`.
    pub fn add(&mut self, pid: usize, thread_id: usize, task: Arc<T>, tid: usize, prio: usize)
        requires
            old(self).wf(),
            pid < crate::config::MAX_USER,
            thread_id < crate::config::MAX_THREAD,
            prio < PRIO_NUM,
            old(self).at(pid as int, thread_id as int).sched().pending().len() < usize::MAX,
        ensures
            final(self).wf(),
            final(self).at(pid as int, thread_id as int).sched().pending()
                == old(self).at(pid as int, thread_id as int).sched().pending().insert(TaskId { tid, prio }),
            final(self).at(pid as int, thread_id as int).sched().pushed(old(self).at(pid as int, thread_id as int).sched(), TaskId { tid, prio }),
            final(self).at(pid as int, thread_id as int).tasks_view()
                == old(self).at(pid as int, thread_id as int).tasks_view().insert(tid, task),
            final(self).at(pid as int, thread_id as int).prios()
                == old(self).at(pid as int, thread_id as int).prios().insert(tid, prio),
            forall|i: int, j: int| 0 <= i < crate::config::MAX_USER && 0 <= j < crate::config::MAX_THREAD && (i != pid || j != thread_id)
                ==> #[trigger] final(self).at(i, j) == old(self).at(i, j),
    {
        self.rows[pid][thread_id].add(task, tid, prio);
        proof {
            assert forall|i: int| 0 <= i < crate::config::MAX_USER implies #[trigger] self.rows@[i]@.len() == crate::config::MAX_THREAD by {
                if i != pid {
                    assert(self.rows@[i] == old(self).rows@[i]);
                }
            }
            assert forall|i: int, j: int| 0 <= i < crate::config::MAX_USER && 0 <= j < crate::config::MAX_THREAD && (i != pid || j != thread_id)
                implies #[trigger] self.at(i, j) == old(self).at(i, j) by {
                if i != pid {
                    assert(self.rows@[i] == old(self).rows@[i]);
                }
            }
            assert forall|i: int, j: int| 0 <= i < crate::config::MAX_USER && 0 <= j < crate::config::MAX_THREAD implies #[trigger] self.rows@[i]@[j].wf() by {
                if i != pid || j != thread_id {
                    assert(self.at(i, j) == old(self).at(i, j));
                }
            }
        }
    }

    /// The manager of thread `thread_id` of space `pid`.
    pub fn manager(&self, pid: usize, thread_id: usize) -> (r: &Manager<T, crate::rt::scheduler::PrioScheduler>)
        requires
            self.wf(),
            pid < crate::config::MAX_USER,
            thread_id < crate::config::MAX_THREAD,
        ensures
            *r == self.at(pid as int, thread_id as int),
    {
        &self.rows[pid][thread_id]
    }

    /// The id last handed out by the manager of thread `thread_id` of space `pid`.
    pub fn current(&self, pid: usize, thread_id: usize) -> (r: Option<usize>)
        requires
            self.wf(),
            pid < crate::config::MAX_USER,
            thread_id < crate::config::MAX_THREAD,
        ensures
            r == self.at(pid as int, thread_id as int).current_tid(),
    {
        self.rows[pid][thread_id].current()
    }
}


/// Registering a task makes it retrievable and wakeable: after
/// `add(task, tid, prio)`, `get(tid)` gives `task` and `re_back(tid)`
/// succeeds, rescheduling `TaskId { tid, prio }`; after `remove(tid)`,
/// `get(tid)` gives nothing and `re_back(tid)` fails.
pub proof fn manager_registration<T, S: Scheduler>(before: Manager<T, S>, added: Manager<T, S>, removed: Manager<T, S>, task: Arc<T>, tid: usize, prio: usize)
    requires
        added.tasks_view() == before.tasks_view().insert(tid, task),
        added.prios() == before.prios().insert(tid, prio),
        removed.tasks_view() == added.tasks_view().remove(tid),
        removed.prios() == added.prios().remove(tid),
    ensures
        added.task_of(tid) == Some(task),
        added.wakeable(tid),
        (TaskId { tid, prio: added.prios()[tid] }) == (TaskId { tid, prio }),
        removed.task_of(tid) == None::<Arc<T>>,
        !removed.wakeable(tid),
{
}

/// A wake-up flag is consumed by the check that sees it: after `add(t)` the
/// first `contains_tid(t)` is true and the next one is false.
pub proof fn callback_flag_consumed(before: CBTid, added: CBTid, checked: CBTid, t: usize)
    requires
        t < before@.len(),
        added@ == before@.update(t as int, true),
        checked@ == added@.update(t as int, false),
    ensures
        added.raised(t as int),
        !checked.raised(t as int),
{
}

} // verus!
