use vstd::prelude::*;
use std::collections::{BTreeMap, BTreeSet};
use std::sync::Arc;
use crate::config::PRIO_NUM;
use crate::coroutine::scheduler::{Scheduler, TaskId};

verus! {

broadcast use vstd::std_specs::btree::group_btree_axioms, vstd::laws_cmp::group_laws_cmp;

/// The coroutines of the address space: every task by id, its priority,
/// the scheduler of ready ones, the id last handed out, and the ids of
/// tasks waiting for a wake-up.
pub struct Manager<T, S> where S: Scheduler {
    tasks: BTreeMap<usize, Arc<T>>,
    scheduler: S,
    prio_map: BTreeMap<usize, usize>,
    current: Option<usize>,
    wait_task: BTreeSet<usize>,
}

impl<T, S: Scheduler> Manager<T, S> {
    /// Every task by id.
    pub closed spec fn tasks_view(&self) -> Map<usize, Arc<T>> {
        self.tasks@
    }

    /// Every task's priority by id.
    pub closed spec fn prios(&self) -> Map<usize, usize> {
        self.prio_map@
    }

    /// The scheduler.
    pub closed spec fn sched(&self) -> S {
        self.scheduler
    }

    /// The id of the task last handed out by `fetch`.
    pub closed spec fn current_tid(&self) -> Option<usize> {
        self.current
    }

    /// The ids of tasks waiting for a wake-up.
    pub closed spec fn waiting(&self) -> Set<usize> {
        self.wait_task@
    }

    /// The scheduler is consistent and every recorded priority is a level.
    pub open spec fn wf(&self) -> bool {
        &&& self.sched().wf()
        &&& forall|k: usize| #[trigger] self.prios().contains_key(k) ==> self.prios()[k] < PRIO_NUM
    }

    /// What `get(tid)` returns: the task registered under `tid`, if any.
    pub open spec fn task_of(&self, tid: usize) -> Option<Arc<T>> {
        if self.tasks_view().contains_key(tid) {
            Some(self.tasks_view()[tid])
        } else {
            None
        }
    }

    /// What `re_back(tid)` returns: whether a priority is recorded for `tid`.
    pub open spec fn wakeable(&self, tid: usize) -> bool {
        self.prios().contains_key(tid)
    }

    /// What `empty()` returns: nothing is scheduled and nothing waits.
    pub open spec fn is_idle(&self) -> bool {
        self.sched().pending().len() == 0 && self.waiting().is_empty()
    }

    /// The scheduler of ready tasks.
    pub fn scheduler(&self) -> (r: &S)
        ensures
            *r == self.sched(),
    {
        &self.scheduler
    }

    /// A manager with no tasks around `scheduler`.
    pub fn new(scheduler: S) -> (r: Self)
        ensures
            r.tasks_view() == Map::<usize, Arc<T>>::empty(),
            r.prios() == Map::<usize, usize>::empty(),
            r.sched() == scheduler,
            r.current_tid() == None::<usize>,
            r.waiting() == Set::<usize>::empty(),
    {
        Manager {
            tasks: BTreeMap::new(),
            scheduler,
            prio_map: BTreeMap::new(),
            current: None,
            wait_task: BTreeSet::new(),
        }
    }

    /// Pops the next scheduled id; when there is one it becomes the current
    /// id and its task (if still registered) is returned.
    pub fn fetch(&mut self) -> (r: Option<Arc<T>>)
        requires
            old(self).wf(),
        ensures
            final(self).wf(),
            final(self).sched().popped(old(self).sched()),
            final(self).tasks_view() == old(self).tasks_view(),
            final(self).prios() == old(self).prios(),
            final(self).waiting() == old(self).waiting(),
            match old(self).sched().next_task() {
                Some(t) => {
                    &&& old(self).sched().pending().count(t) > 0
                    &&& final(self).sched().pending() == old(self).sched().pending().remove(t)
                    &&& final(self).current_tid() == Some(t.tid)
                    &&& r == (if old(self).tasks_view().contains_key(t.tid) {
                        Some(old(self).tasks_view()[t.tid])
                    } else {
                        None
                    })
                },
                None => {
                    &&& final(self).sched().pending() == old(self).sched().pending()
                    &&& final(self).current_tid() == old(self).current_tid()
                    &&& r == None::<Arc<T>>
                },
            },
    {
        let task_id = self.scheduler.pop();
        assert(self.prios() == old(self).prios());
        if let Some(tid) = task_id {
            self.current = Some(tid.tid);
            return self.get(tid.tid);
        }
        None
    }

    /// The task registered under `tid`, if any.
    pub fn get(&self, tid: usize) -> (r: Option<Arc<T>>)
        ensures
            r == self.task_of(tid),
    {
        if let Some(ret) = self.tasks.get(&tid) {
            return Some(ret.clone());
        }
        None
    }

    /// Wakes task `tid`: puts it back on the scheduler at its recorded
    /// priority and stops it waiting; `false` (and nothing changes) when no
    /// priority is recorded for it.
    pub fn re_back(&mut self, tid: usize) -> (r: bool)
        requires
            old(self).wf(),
            old(self).sched().pending().len() < usize::MAX,
        ensures
            final(self).wf(),
            final(self).tasks_view() == old(self).tasks_view(),
            final(self).prios() == old(self).prios(),
            final(self).current_tid() == old(self).current_tid(),
            r == old(self).wakeable(tid),
            r ==> final(self).sched().pending() == old(self).sched().pending().insert(
                TaskId { tid, prio: old(self).prios()[tid] },
            ),
            r ==> final(self).sched().pushed(old(self).sched(), TaskId { tid, prio: old(self).prios()[tid] }),
            r ==> final(self).waiting() == old(self).waiting().remove(tid),
            !r ==> final(self).sched() == old(self).sched() && final(self).waiting() == old(self).waiting(),
    {
        let op_prio = match self.prio_map.get(&tid) {
            Some(p) => Some(*p),
            None => None,
        };
        match op_prio {
            Some(prio) => {
                self.scheduler.push(TaskId { tid, prio });
                self.wait_task.remove(&tid);
            },
            _ => return false,
        }
        true
    }

    /// Registers `task` under `tid` with priority `prio` and schedules it.
    pub fn add(&mut self, task: Arc<T>, tid: usize, prio: usize)
        requires
            old(self).wf(),
            prio < PRIO_NUM,
            old(self).sched().pending().len() < usize::MAX,
        ensures
            final(self).wf(),
            final(self).sched().pending() == old(self).sched().pending().insert(TaskId { tid, prio }),
            final(self).sched().pushed(old(self).sched(), TaskId { tid, prio }),
            final(self).tasks_view() == old(self).tasks_view().insert(tid, task),
            final(self).prios() == old(self).prios().insert(tid, prio),
            final(self).current_tid() == old(self).current_tid(),
            final(self).waiting() == old(self).waiting(),
    {
        self.scheduler.push(TaskId { tid, prio });
        self.tasks.insert(tid, task);
        self.prio_map.insert(tid, prio);
        proof {
            assert(self.prios() == old(self).prios().insert(tid, prio));
            assert forall|k: usize| #[trigger] self.prios().contains_key(k) implies self.prios()[k] < PRIO_NUM by {
                if k != tid {
                    assert(old(self).prios().contains_key(k));
                }
            }
        }
    }

    /// Forgets task `tid` and its priority (the scheduler is left alone).
    pub fn remove(&mut self, tid: usize)
        requires
            old(self).wf(),
        ensures
            final(self).wf(),
            final(self).tasks_view() == old(self).tasks_view().remove(tid),
            final(self).prios() == old(self).prios().remove(tid),
            final(self).sched() == old(self).sched(),
            final(self).current_tid() == old(self).current_tid(),
            final(self).waiting() == old(self).waiting(),
    {
        self.tasks.remove(&tid);
        self.prio_map.remove(&tid);
        proof {
            assert(self.prios() == old(self).prios().remove(tid));
            assert forall|k: usize| #[trigger] self.prios().contains_key(k) implies self.prios()[k] < PRIO_NUM by {
                assert(old(self).prios().contains_key(k));
            }
        }
    }

    /// The id of the task last handed out by `fetch`.
    pub fn current(&self) -> (r: Option<usize>)
        ensures
            r == self.current_tid(),
    {
        self.current
    }

    /// Whether no task is scheduled and none is waiting.
    pub fn empty(&self) -> (r: bool)
        requires
            self.wf(),
        ensures
            r == self.is_idle(),
    {
        self.scheduler.empty() && self.wait_task.is_empty()
    }

    /// The level the scheduler currently serves.
    pub fn high_prio(&self) -> (r: usize)
        ensures
            r == self.sched().high(),
    {
        self.scheduler.high_prio()
    }

    /// Marks task `tid` as waiting for a wake-up.
    pub fn add_wait_task(&mut self, tid: usize)
        requires
            old(self).wf(),
        ensures
            final(self).wf(),
            final(self).waiting() == old(self).waiting().insert(tid),
            final(self).tasks_view() == old(self).tasks_view(),
            final(self).prios() == old(self).prios(),
            final(self).sched() == old(self).sched(),
            final(self).current_tid() == old(self).current_tid(),
    {
        self.wait_task.insert(tid);
        assert(self.prios() == old(self).prios());
    }
}


/// Registering a task makes it retrievable and wakeable: after
/// `add(task, tid, prio)`, `get(tid)` gives `task` and `re_back(tid)`
/// succeeds, rescheduling `TaskId { tid, prio }`; after `remove(tid)`,
/// `get(tid)` gives nothing and `re_back(tid)` fails.
pub proof fn manager_registration<T, S: Scheduler>(before: Manager<T, S>, added: Manager<T, S>, removed: Manager<T, S>, task: Arc<T>, tid: usize, prio: usize)
    requires
        added.tasks_view() == before.tasks_view().insert(tid, task),
        added.prios() == before.prios().insert(tid, prio),
        removed.tasks_view() == added.tasks_view().remove(tid),
        removed.prios() == added.prios().remove(tid),
    ensures
        added.task_of(tid) == Some(task),
        added.wakeable(tid),
        (TaskId { tid, prio: added.prios()[tid] }) == (TaskId { tid, prio }),
        removed.task_of(tid) == None::<Arc<T>>,
        !removed.wakeable(tid),
{
}

/// A task that waits for a wake-up keeps the manager busy until it is
/// woken: after `add_wait_task(tid)` the manager is not `empty()` and `tid`
/// waits; a successful `re_back(tid)` then stops it waiting.
pub proof fn woken_task_stops_waiting<T, S: Scheduler>(before: Manager<T, S>, waited: Manager<T, S>, woken: Manager<T, S>, tid: usize)
    requires
        waited.waiting() == before.waiting().insert(tid),
        woken.waiting() == waited.waiting().remove(tid),
    ensures
        waited.waiting().contains(tid),
        !waited.is_idle(),
        !woken.waiting().contains(tid),
{
    assert(!waited.waiting().is_empty()) by {
        if waited.waiting().is_empty() {
            assert(!waited.waiting().contains(tid));
        }
    }
}

} // verus!
