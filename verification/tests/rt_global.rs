use std::collections::BTreeSet;
use std::sync::Arc;
use async_os::rt::ccmap::WRMap;
use async_os::rt::executor::{add_task_with_priority, kernel_current_corotine, KernelThreadLoop, LoopStep, UserThreadLoop};
use async_os::rt::global::{add_callback, check_prio_pid, defer_callback, sync_bitmaps, update_callback, update_global_bitmap, wake_kernel_tid, wrmap_register};
use async_os::rt::manager::{CallbackTask, ManagerTable};
use async_os::rt::task_queue::{BitMaps, TaskQueue};
use async_os::rt::user_task::TaskId;
use async_os::rt::task_waker::TaskWaker;

#[test]
fn global_bitmap_picks_threads_with_most_urgent_level() {
    let mut maps = BitMaps::new();
    maps.update(0, 1, 5, true);
    maps.update(2, 3, 2, true);
    maps.update(3, 0, 2, true);
    maps.update(3, 0, 6, true);
    let mut picks = BTreeSet::new();
    picks.insert((1, 1));
    update_global_bitmap(&maps, &mut picks);
    let expected: BTreeSet<(usize, usize)> = [(2, 3), (3, 0)].into_iter().collect();
    assert_eq!(picks, expected);
    assert!(check_prio_pid(&mut picks, 2, 3));
    assert!(!check_prio_pid(&mut picks, 2, 3));
    assert!(!check_prio_pid(&mut picks, 0, 1));
    assert!(check_prio_pid(&mut picks, 3, 0));
    assert!(picks.is_empty());
}

#[test]
fn global_bitmap_with_no_marks_picks_nobody() {
    let maps = BitMaps::new();
    let mut picks = BTreeSet::new();
    update_global_bitmap(&maps, &mut picks);
    assert!(picks.is_empty());
    assert!(!check_prio_pid(&mut picks, 0, 0));
}

#[test]
fn add_callback_delivers_or_queues() {
    let mut managers: ManagerTable<u32> = ManagerTable::new();
    let mut callbacks = Vec::new();
    // unknown task: queued
    assert!(!add_callback(&mut managers, &mut callbacks, 1, 2, 42));
    assert_eq!(callbacks, vec![CallbackTask { pid: 1, thread_id: 2, tid: 42, is_valid: true }]);
    // the task appears, is run, and waits
    add_task_with_priority(&mut managers, Arc::new(7), 3, 1, 2, 42);
    assert_eq!(managers.fetch(1, 2).map(|a| *a), Some(7));
    assert_eq!(managers.fetch(1, 2), None);
    // the queued wake-up is delivered now
    update_callback(&mut managers, &mut callbacks);
    assert!(callbacks.is_empty());
    assert_eq!(managers.fetch(1, 2).map(|a| *a), Some(7));
    // a known task is woken at once
    assert!(add_callback(&mut managers, &mut callbacks, 1, 2, 42));
    assert!(callbacks.is_empty());
    assert_eq!(managers.fetch(1, 2).map(|a| *a), Some(7));
}

#[test]
fn update_callback_keeps_undeliverable_in_order() {
    let mut managers: ManagerTable<u32> = ManagerTable::new();
    add_task_with_priority(&mut managers, Arc::new(1), 0, 0, 0, 5);
    let mut callbacks = vec![
        CallbackTask { pid: 0, thread_id: 1, tid: 8, is_valid: true },
        CallbackTask { pid: 0, thread_id: 0, tid: 5, is_valid: true },
        CallbackTask { pid: 2, thread_id: 2, tid: 9, is_valid: true },
        CallbackTask { pid: 0, thread_id: 0, tid: 6, is_valid: false },
    ];
    update_callback(&mut managers, &mut callbacks);
    assert_eq!(callbacks, vec![
        CallbackTask { pid: 0, thread_id: 1, tid: 8, is_valid: true },
        CallbackTask { pid: 2, thread_id: 2, tid: 9, is_valid: true },
    ]);
    assert_eq!(managers.fetch(0, 0).map(|a| *a), Some(1));
    assert_eq!(managers.fetch(0, 0).map(|a| *a), Some(1));
    assert_eq!(managers.fetch(0, 0), None);
}

#[test]
fn wrmap_register_and_wake_kernel() {
    let mut wrmap = WRMap::new();
    let mut managers: ManagerTable<u32> = ManagerTable::new();
    let mut callbacks = Vec::new();
    add_task_with_priority(&mut managers, Arc::new(11), 1, 0, 0, 3);
    assert_eq!(managers.fetch(0, 0).map(|a| *a), Some(11));
    wrmap_register(&mut wrmap, 333, 3);
    wake_kernel_tid(&mut wrmap, &mut managers, &mut callbacks, 1, 333);
    assert!(callbacks.is_empty());
    assert_eq!(managers.fetch(0, 0).map(|a| *a), Some(11));
    // the registration was consumed
    assert_eq!(wrmap.get_rid(333), None);
    wake_kernel_tid(&mut wrmap, &mut managers, &mut callbacks, 1, 333);
    assert_eq!(managers.fetch(0, 0), None);
    // an unknown kernel task is queued as a callback
    wrmap_register(&mut wrmap, 1, 77);
    wake_kernel_tid(&mut wrmap, &mut managers, &mut callbacks, 1, 1);
    assert_eq!(callbacks, vec![CallbackTask { pid: 0, thread_id: 0, tid: 77, is_valid: true }]);
}

#[test]
fn wrmap_get_rid_consumes() {
    let mut w = WRMap::new();
    w.register(4, 40);
    w.register(4, 41);
    assert_eq!(w.get_rid(4), Some(41));
    assert_eq!(w.get_rid(4), None);
}

#[test]
fn user_thread_loop_decisions() {
    let mut managers: ManagerTable<u32> = ManagerTable::new();
    let mut lp = UserThreadLoop::new();
    assert!(matches!(lp.next(&mut managers, 2, 1), LoopStep::Stop));
    add_task_with_priority(&mut managers, Arc::new(70), 2, 2, 1, 12);
    match lp.next(&mut managers, 2, 1) {
        LoopStep::Run(tid, task) => {
            assert_eq!(tid, 12);
            assert_eq!(*task, 70);
        }
        _ => panic!("expected a task to run"),
    }
    lp.finish(12, false);
    assert!(matches!(lp.next(&mut managers, 2, 1), LoopStep::Yield));
    lp.finish(12, true);
    assert!(matches!(lp.next(&mut managers, 2, 1), LoopStep::Stop));
}

#[test]
fn kernel_thread_loop_tracks_current() {
    let mut managers: ManagerTable<u32> = ManagerTable::new();
    let mut lp = KernelThreadLoop::new();
    assert_eq!(kernel_current_corotine(&lp), 0);
    add_task_with_priority(&mut managers, Arc::new(1), 0, 0, 0, 21);
    assert_eq!(lp.next(&mut managers).map(|a| *a), Some(1));
    assert_eq!(kernel_current_corotine(&lp), 21);
    assert_eq!(lp.next(&mut managers), None);
    assert_eq!(kernel_current_corotine(&lp), 21);
}

#[test]
fn task_waker_wake_does_nothing() {
    let w = TaskWaker::new();
    w.wake_task();
}

#[test]
fn queue_holding_most_urgent_task_is_picked() {
    let mut maps = BitMaps::new();
    let mut q1 = TaskQueue::new(2, 1);
    let mut q2 = TaskQueue::new(0, 0);
    q1.add_tid(TaskId(1), 1, &mut maps);
    q2.add_tid(TaskId(2), 3, &mut maps);
    let mut picks = BTreeSet::new();
    update_global_bitmap(&maps, &mut picks);
    let expected: BTreeSet<(usize, usize)> = [(2, 1)].into_iter().collect();
    assert_eq!(picks, expected);
    q1.pop_tid(&mut maps);
    update_global_bitmap(&maps, &mut picks);
    let expected: BTreeSet<(usize, usize)> = [(0, 0)].into_iter().collect();
    assert_eq!(picks, expected);
}

#[test]
fn defer_callback_queues_a_valid_wake_up() {
    let mut callbacks = vec![CallbackTask { pid: 0, thread_id: 0, tid: 1, is_valid: true }];
    assert!(!defer_callback(&mut callbacks, 2, 3, 9));
    assert_eq!(
        callbacks,
        vec![
            CallbackTask { pid: 0, thread_id: 0, tid: 1, is_valid: true },
            CallbackTask { pid: 2, thread_id: 3, tid: 9, is_valid: true },
        ]
    );
}

#[test]
fn sync_bitmaps_publishes_every_scheduler() {
    let mut managers: ManagerTable<u32> = ManagerTable::new();
    let mut maps = BitMaps::new();
    maps.update(3, 3, 1, true);
    add_task_with_priority(&mut managers, Arc::new(1), 4, 1, 2, 10);
    add_task_with_priority(&mut managers, Arc::new(2), 6, 1, 2, 11);
    add_task_with_priority(&mut managers, Arc::new(3), 4, 2, 0, 12);
    sync_bitmaps(&managers, &mut maps);
    assert_eq!(maps.get_val(1, 2), (1 << 4) | (1 << 6));
    assert_eq!(maps.get_val(2, 0), 1 << 4);
    assert_eq!(maps.get_val(3, 3), 0);
    assert_eq!(maps.get_val(0, 0), 0);
    let mut picks = BTreeSet::new();
    update_global_bitmap(&maps, &mut picks);
    let expected: BTreeSet<(usize, usize)> = [(1, 2), (2, 0)].into_iter().collect();
    assert_eq!(picks, expected);
}
