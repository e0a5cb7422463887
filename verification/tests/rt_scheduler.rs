use std::sync::Arc;
use async_os::counter::TaskCounter;
use async_os::rt::manager::{Manager, CBTid, check_callback};
use async_os::rt::scheduler::{PrioScheduler, Scheduler, TaskId};
use async_os::rt::user_task;

fn t(tid: usize, prio: usize) -> TaskId {
    TaskId { tid, prio }
}

#[test]
fn prio_scheduler_strict_priority_then_fifo() {
    let mut s = PrioScheduler::new();
    assert!(s.empty());
    s.push(t(1, 3));
    s.push(t(2, 0));
    s.push(t(3, 3));
    s.push(t(4, 0));
    assert!(!s.empty());
    assert_eq!(s.task_num(), 4);
    assert_eq!(s.pop(), Some(t(2, 0)));
    assert_eq!(s.pop(), Some(t(4, 0)));
    assert_eq!(s.pop(), Some(t(1, 3)));
    s.push(t(5, 1));
    assert_eq!(s.pop(), Some(t(5, 1)));
    assert_eq!(s.pop(), Some(t(3, 3)));
    assert_eq!(s.pop(), None);
    assert!(s.empty());
    assert_eq!(s.bitmap().get_val(), 0);
}

#[test]
fn prio_scheduler_new_is_zeroed_and_drains_to_zero() {
    let mut s = PrioScheduler::new();
    assert_eq!(s.task_num(), 0);
    assert_eq!(s.bitmap().get_val(), 0);
    assert_eq!(s.pop(), None);
    s.push(t(1, 2));
    s.push(t(2, 0));
    s.push(t(3, 0));
    assert_eq!(s.pop(), Some(t(2, 0)));
    assert_eq!(s.pop(), Some(t(3, 0)));
    assert_eq!(s.pop(), Some(t(1, 2)));
    assert_eq!(s.pop(), None);
    assert!(s.empty());
    assert_eq!(s.bitmap().get_val(), 0);
    assert_eq!(s.task_num(), 0);
}

#[test]
fn prio_scheduler_bitmap_tracks_levels() {
    let mut s = PrioScheduler::new();
    s.push(t(7, 6));
    assert_eq!(s.bitmap().get_val(), 1 << 6);
    s.push(t(8, 2));
    assert_eq!(s.bitmap().get_val(), (1 << 6) | (1 << 2));
    s.pop();
    assert_eq!(s.bitmap().get_val(), 1 << 6);
}

#[test]
fn task_ids_are_drawn_in_order() {
    let mut c = TaskCounter::new();
    assert_eq!(TaskId::generate(&mut c), 0);
    assert_eq!(TaskId::generate(&mut c), 1);
    let id = user_task::TaskId::generate(&mut c);
    assert_eq!(id.get_val(), 2);
    assert_eq!(c.peek(), 3);
    assert_eq!(user_task::TaskId::get_tid_by_usize(9).get_val(), 9);
}

#[test]
fn manager_add_get_fetch_re_back_remove() {
    let mut m: Manager<u32, PrioScheduler> = Manager::new(PrioScheduler::new());
    assert!(m.empty());
    assert_eq!(m.get(1), None);
    m.add(Arc::new(100), 1, 2);
    m.add(Arc::new(200), 2, 0);
    assert_eq!(m.get(1).map(|a| *a), Some(100));
    assert!(!m.empty());
    // the more urgent task comes first
    assert_eq!(m.fetch().map(|a| *a), Some(200));
    assert_eq!(m.current(), Some(2));
    assert_eq!(m.fetch().map(|a| *a), Some(100));
    assert_eq!(m.current(), Some(1));
    assert!(m.empty());
    assert_eq!(m.fetch(), None);
    assert_eq!(m.current(), Some(1));
    // waking puts it back at its priority
    assert!(m.re_back(1));
    assert_eq!(m.scheduler().task_num(), 1);
    assert_eq!(m.fetch().map(|a| *a), Some(100));
    // removal forgets the task
    m.remove(1);
    assert_eq!(m.get(1), None);
    assert!(!m.re_back(1));
    assert!(m.empty());
}

#[test]
fn manager_fetch_of_removed_task_gives_nothing() {
    let mut m: Manager<u32, PrioScheduler> = Manager::new(PrioScheduler::new());
    m.add(Arc::new(5), 9, 1);
    m.remove(9);
    assert!(!m.empty());
    assert_eq!(m.fetch(), None);
    assert_eq!(m.current(), Some(9));
    assert!(m.empty());
}

#[test]
fn callback_flags_test_and_clear() {
    let mut c = CBTid::new();
    assert!(!c.contains_tid(7));
    c.add(7);
    assert!(check_callback(&mut c, 7));
    assert!(!check_callback(&mut c, 7));
    assert!(!c.contains_tid(8));
}
