use async_os::config::PRIO_NUM;
use async_os::rt::bitmap::BitMap;
use async_os::rt::global::get_right_one_mask;
use async_os::rt::task_queue::{BitMaps, TaskQueue};
use async_os::rt::user_task::TaskId;

#[test]
fn bitmap_update_get_roundtrip() {
    let mut b = BitMap::new();
    assert_eq!(b.get_val(), 0);
    b.update(3, true);
    assert!(b.get(3));
    assert!(!b.get(2));
    assert_eq!(b.get_val(), 0b1000);
    b.update(3, false);
    assert!(!b.get(3));
    assert_eq!(b.get_val(), 0);
}

#[test]
fn bitmap_priority_is_lowest_marked_level() {
    let mut b = BitMap::new();
    assert_eq!(b.get_priority(), PRIO_NUM);
    b.update(5, true);
    assert_eq!(b.get_priority(), 5);
    b.update(1, true);
    assert_eq!(b.get_priority(), 1);
    b.update(1, false);
    assert_eq!(b.get_priority(), 5);
}

#[test]
fn bitmap_priority_ignores_levels_beyond_prio_num() {
    let mut b = BitMap::new();
    b.update(PRIO_NUM + 1, true);
    assert!(b.get(PRIO_NUM + 1));
    assert_eq!(b.get_priority(), PRIO_NUM);
}

#[test]
fn right_one_mask_values() {
    assert_eq!(get_right_one_mask(0b1010_0000), 0b10_0000);
    assert_eq!(get_right_one_mask(0b110), 0b10);
    assert_eq!(get_right_one_mask(0), 1);
    assert_eq!(get_right_one_mask(1 << PRIO_NUM), 1);
    assert_eq!(get_right_one_mask(0b1), 1);
}

#[test]
fn task_queue_pops_most_urgent_fifo_and_keeps_bitmap() {
    let mut maps = BitMaps::new();
    let mut q = TaskQueue::new(1, 2);
    assert!(q.is_empty());
    q.add_tid(TaskId::get_tid_by_usize(10), 4, &mut maps);
    q.add_tid(TaskId::get_tid_by_usize(11), 2, &mut maps);
    q.add_tid(TaskId::get_tid_by_usize(12), 2, &mut maps);
    assert_eq!(maps.get_val(1, 2), (1 << 4) | (1 << 2));
    assert_eq!(maps.get_val(0, 0), 0);
    assert_eq!(maps.get_priority(1, 2), 2);
    assert_eq!(q.pop_tid(&mut maps), Some(TaskId(11)));
    assert_eq!(q.pop_tid(&mut maps), Some(TaskId(12)));
    assert_eq!(maps.get_val(1, 2), 1 << 4);
    assert_eq!(q.pop_tid(&mut maps), Some(TaskId(10)));
    assert_eq!(maps.get_val(1, 2), 0);
    assert_eq!(q.pop_tid(&mut maps), None);
    assert!(q.is_empty());
    assert_eq!(q.task_num(), 0);
    q.add_tid(TaskId::get_tid_by_usize(13), 0, &mut maps);
    assert!(!q.is_empty());
}

#[test]
fn task_queue_for_any_owner_can_be_created() {
    let q = TaskQueue::new(usize::MAX, 99);
    assert!(q.is_empty());
}

#[test]
fn bitmaps_update_touches_one_thread() {
    let mut maps = BitMaps::new();
    maps.update(2, 3, 6, true);
    assert_eq!(maps.get_val(2, 3), 1 << 6);
    assert_eq!(maps.get_priority(2, 3), 6);
    assert_eq!(maps.get_val(3, 2), 0);
    assert_eq!(maps.get_priority(3, 2), PRIO_NUM);
}

#[test]
fn fresh_queue_pops_nothing_whatever_its_owner() {
    let mut maps = BitMaps::new();
    maps.update(1, 1, 3, true);
    let mut q = TaskQueue::new(usize::MAX, 77);
    assert_eq!(q.pop_tid(&mut maps), None);
    assert!(q.is_empty());
    assert_eq!(maps.get_val(1, 1), 1 << 3);
}

#[test]
fn task_queue_run_serves_levels_in_arrival_order() {
    let mut maps = BitMaps::new();
    let mut q = TaskQueue::new(2, 1);
    q.add_tid(TaskId(1), 5, &mut maps);
    q.add_tid(TaskId(2), 3, &mut maps);
    q.add_tid(TaskId(3), 5, &mut maps);
    assert_eq!(q.pop_tid(&mut maps), Some(TaskId(2)));
    q.add_tid(TaskId(4), 3, &mut maps);
    q.add_tid(TaskId(5), 5, &mut maps);
    assert_eq!(q.pop_tid(&mut maps), Some(TaskId(4)));
    assert_eq!(q.pop_tid(&mut maps), Some(TaskId(1)));
    assert!(!q.is_empty());
    assert_eq!(q.pop_tid(&mut maps), Some(TaskId(3)));
    assert_eq!(q.pop_tid(&mut maps), Some(TaskId(5)));
    // five adds, five pops that handed out a task
    assert!(q.is_empty());
    assert_eq!(q.pop_tid(&mut maps), None);
    assert_eq!(maps.get_val(2, 1), 0);
}
