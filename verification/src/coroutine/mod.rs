//! The user-space coroutine runtime of one address space.
pub mod scheduler;
pub mod manager;
pub mod user_task;

use vstd::prelude::*;
use std::sync::Arc;
use crate::config::PRIO_NUM;
use crate::coroutine::manager::Manager;
use crate::coroutine::scheduler::{PrioScheduler, Scheduler, TaskId};
use crate::rt::executor::LoopStep;

verus! {

/// Registers coroutine `task` (id `tid`, priority `prio`), schedules it, and
/// publishes the level now served as the address space's priority
/// (`process_prio`, which the kernel reads). Returns `tid`.
pub fn add_task_with_priority<T>(manager: &mut Manager<T, PrioScheduler>, process_prio: &mut usize, task: Arc<T>, tid: usize, prio: usize) -> (r: usize)
    requires
        old(manager).wf(),
        prio < PRIO_NUM,
        old(manager).sched().pending().len() < usize::MAX,
    ensures
        r == tid,
        final(manager).wf(),
        final(manager).sched().pending() == old(manager).sched().pending().insert(TaskId { tid, prio }),
        final(manager).sched().pushed(old(manager).sched(), TaskId { tid, prio }),
        final(manager).tasks_view() == old(manager).tasks_view().insert(tid, task),
        final(manager).prios() == old(manager).prios().insert(tid, prio),
        final(manager).waiting() == old(manager).waiting(),
        *final(process_prio) == final(manager).sched().high(),
{
    manager.add(task, tid, prio);
    *process_prio = manager.high_prio();
    tid
}

/// A wake-up arrived for task `tid`: put it back on the scheduler.
pub fn add_callback_task<T>(manager: &mut Manager<T, PrioScheduler>, tid: usize)
    requires
        old(manager).wf(),
        old(manager).sched().pending().len() < usize::MAX,
    ensures
        final(manager).wf(),
        final(manager).tasks_view() == old(manager).tasks_view(),
        final(manager).prios() == old(manager).prios(),
        old(manager).prios().contains_key(tid) ==> {
            &&& final(manager).sched().pending() == old(manager).sched().pending().insert(
                TaskId { tid, prio: old(manager).prios()[tid] })
            &&& final(manager).sched().pushed(old(manager).sched(), TaskId { tid, prio: old(manager).prios()[tid] })
            &&& final(manager).waiting() == old(manager).waiting().remove(tid)
        },
        !old(manager).prios().contains_key(tid) ==> final(manager).sched() == old(manager).sched()
            && final(manager).waiting() == old(manager).waiting(),
{
    manager.re_back(tid);
}

/// One decision of the coroutine loop: fetch the next task and run it
/// (publishing the served level as the space's priority); with nothing
/// fetched, stop when no task is scheduled or waiting and yield otherwise.
pub fn coroutine_next<T>(manager: &mut Manager<T, PrioScheduler>, process_prio: &mut usize) -> (r: LoopStep<T>)
    requires
        old(manager).wf(),
    ensures
        final(manager).wf(),
        final(manager).tasks_view() == old(manager).tasks_view(),
        final(manager).prios() == old(manager).prios(),
        final(manager).waiting() == old(manager).waiting(),
        final(manager).sched().popped(old(manager).sched()),
        match old(manager).sched().next_task() {
            Some(t) => final(manager).sched().pending() == old(manager).sched().pending().remove(t),
            None => final(manager).sched().pending() == old(manager).sched().pending(),
        },
        match r {
            LoopStep::Run(tid, task) => {
                &&& old(manager).sched().next_task() matches Some(t) && t.tid == tid
                &&& old(manager).tasks_view().contains_key(tid)
                &&& task == old(manager).tasks_view()[tid]
                &&& *final(process_prio) == final(manager).sched().high()
            },
            LoopStep::Stop => {
                &&& final(manager).sched().pending().len() == 0 && final(manager).waiting().is_empty()
                &&& *final(process_prio) == *old(process_prio)
            },
            LoopStep::Yield => {
                &&& !(final(manager).sched().pending().len() == 0 && final(manager).waiting().is_empty())
                &&& *final(process_prio) == *old(process_prio)
            },
        },
        (r is Run) <== (old(manager).sched().next_task() matches Some(t) && old(manager).tasks_view().contains_key(t.tid)),
{
    let task = manager.fetch();
    match task {
        None => {
            if manager.empty() {
                LoopStep::Stop
            } else {
                LoopStep::Yield
            }
        },
        Some(t) => {
            *process_prio = manager.high_prio();
            let tid = manager.current();
            LoopStep::Run(tid.unwrap(), t)
        },
    }
}

/// Records the poll result of task `tid`: a finished task is forgotten, a
/// pending one waits for a wake-up.
pub fn coroutine_finish<T>(manager: &mut Manager<T, PrioScheduler>, tid: usize, ready: bool)
    requires
        old(manager).wf(),
    ensures
        final(manager).wf(),
        final(manager).sched() == old(manager).sched(),
        ready ==> final(manager).tasks_view() == old(manager).tasks_view().remove(tid)
            && final(manager).prios() == old(manager).prios().remove(tid)
            && final(manager).waiting() == old(manager).waiting(),
        !ready ==> final(manager).tasks_view() == old(manager).tasks_view()
            && final(manager).prios() == old(manager).prios()
            && final(manager).waiting() == old(manager).waiting().insert(tid),
{
    if ready {
        manager.remove(tid);
    } else {
        manager.add_wait_task(tid);
    }
}

} // verus!
