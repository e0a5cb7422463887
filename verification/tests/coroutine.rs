use std::sync::Arc;
use async_os::counter::TaskCounter;
use async_os::coroutine::manager::Manager;
use async_os::coroutine::scheduler::{PrioScheduler, Scheduler, TaskId};
use async_os::coroutine::user_task::alloc_task_id;
use async_os::coroutine::{add_callback_task, add_task_with_priority, coroutine_finish, coroutine_next};
use async_os::rt::executor::LoopStep;

fn t(tid: usize, prio: usize) -> TaskId {
    TaskId { tid, prio }
}

#[test]
fn served_level_rises_with_pushes() {
    let mut s = PrioScheduler::new();
    assert_eq!(s.high_prio(), 0);
    s.push(t(1, 2));
    assert_eq!(s.high_prio(), 2);
    s.push(t(2, 5));
    assert_eq!(s.high_prio(), 5);
    s.push(t(3, 1));
    assert_eq!(s.high_prio(), 5);
    assert_eq!(s.pop(), Some(t(2, 5)));
}

#[test]
fn idle_pop_moves_to_least_nonempty_level() {
    let mut s = PrioScheduler::new();
    s.push(t(1, 2));
    s.push(t(2, 5));
    s.push(t(3, 4));
    assert_eq!(s.pop(), Some(t(2, 5)));
    // level 5 is now empty: nothing is handed out, the served level drops to 2
    assert_eq!(s.pop(), None);
    assert_eq!(s.high_prio(), 2);
    assert_eq!(s.pop(), Some(t(1, 2)));
    assert_eq!(s.pop(), None);
    assert_eq!(s.high_prio(), 4);
    assert_eq!(s.pop(), Some(t(3, 4)));
    assert!(s.empty());
    assert_eq!(s.pop(), None);
    assert_eq!(s.high_prio(), 0);
}

#[test]
fn task_ids_limited_and_increasing() {
    let mut c = TaskCounter::new();
    assert_eq!(alloc_task_id(&mut c), 0);
    assert_eq!(TaskId::generate(&mut c), 1);
    assert_eq!(c.peek(), 2);
}

#[test]
fn coroutine_run_until_done() {
    let mut m: Manager<&'static str, PrioScheduler> = Manager::new(PrioScheduler::new());
    let mut prio = 0usize;
    let a = add_task_with_priority(&mut m, &mut prio, Arc::new("test1"), 0, 5);
    assert_eq!(a, 0);
    assert_eq!(prio, 5);
    add_task_with_priority(&mut m, &mut prio, Arc::new("test2"), 1, 0);
    assert_eq!(prio, 5);
    match coroutine_next(&mut m, &mut prio) {
        LoopStep::Run(tid, task) => {
            assert_eq!(tid, 0);
            assert_eq!(*task, "test1");
        }
        _ => panic!("expected a task"),
    }
    coroutine_finish(&mut m, 0, true);
    // level 5 is empty now: the first round only moves the served level
    assert!(matches!(coroutine_next(&mut m, &mut prio), LoopStep::Yield));
    match coroutine_next(&mut m, &mut prio) {
        LoopStep::Run(tid, _) => assert_eq!(tid, 1),
        _ => panic!("expected a task"),
    }
    assert_eq!(prio, 0);
    coroutine_finish(&mut m, 1, true);
    assert!(matches!(coroutine_next(&mut m, &mut prio), LoopStep::Stop));
}

#[test]
fn waiting_task_woken_by_callback() {
    let mut m: Manager<u8, PrioScheduler> = Manager::new(PrioScheduler::new());
    let mut prio = 0usize;
    add_task_with_priority(&mut m, &mut prio, Arc::new(1), 3, 0);
    match coroutine_next(&mut m, &mut prio) {
        LoopStep::Run(tid, _) => assert_eq!(tid, 3),
        _ => panic!("expected a task"),
    }
    coroutine_finish(&mut m, 3, false);
    assert!(!m.empty());
    assert!(matches!(coroutine_next(&mut m, &mut prio), LoopStep::Yield));
    add_callback_task(&mut m, 3);
    match coroutine_next(&mut m, &mut prio) {
        LoopStep::Run(tid, task) => {
            assert_eq!(tid, 3);
            assert_eq!(*task, 1);
        }
        _ => panic!("expected the woken task"),
    }
    coroutine_finish(&mut m, 3, true);
    assert!(m.empty());
    assert!(matches!(coroutine_next(&mut m, &mut prio), LoopStep::Stop));
}

#[test]
fn manager_registration_and_removal() {
    let mut m: Manager<u8, PrioScheduler> = Manager::new(PrioScheduler::new());
    m.add(Arc::new(9), 4, 6);
    assert_eq!(m.get(4).map(|a| *a), Some(9));
    assert_eq!(m.high_prio(), 6);
    m.remove(4);
    assert_eq!(m.get(4), None);
    assert!(!m.re_back(4));
    m.add_wait_task(4);
    assert!(!m.empty());
}

#[test]
fn woken_task_goes_behind_queued_tasks_of_its_level() {
    let mut m: Manager<u8, PrioScheduler> = Manager::new(PrioScheduler::new());
    let mut prio = 0usize;
    add_task_with_priority(&mut m, &mut prio, Arc::new(3), 3, 0);
    match coroutine_next(&mut m, &mut prio) {
        LoopStep::Run(tid, _) => assert_eq!(tid, 3),
        _ => panic!("expected a task"),
    }
    coroutine_finish(&mut m, 3, false);
    add_task_with_priority(&mut m, &mut prio, Arc::new(4), 4, 0);
    add_callback_task(&mut m, 3);
    match coroutine_next(&mut m, &mut prio) {
        LoopStep::Run(tid, _) => assert_eq!(tid, 4),
        _ => panic!("expected a task"),
    }
    match coroutine_next(&mut m, &mut prio) {
        LoopStep::Run(tid, _) => assert_eq!(tid, 3),
        _ => panic!("expected a task"),
    }
}
