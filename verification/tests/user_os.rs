use async_os::os::async_wr::{self, AsyncWrite};
use async_os::os::plic::{external_irq_action, get_context, IrqAction};
use async_os::os::task_manager::{Process, ProcessTable, TaskManager};
use async_os::os::uart::{get_base_addr_from_irq, irq_to_serial_id, BufferedSerial, InterruptKind, WouldBlock, WriteStep, DEFAULT_TX_BUFFER_SIZE, FIFO_DEPTH};
use async_os::rt::syscall as rt_sys;
use async_os::user::syscall6::{async_sys_read, async_sys_write, ASYNC_SYSCALL_READ, ASYNC_SYSCALL_WRITE};
use async_os::user::{self, AsyncCall, OpenFlags, Syscall, WaitStep, OPEN_CREATE, OPEN_WRONLY};

#[test]
fn rt_syscall_requests() {
    let w = rt_sys::write(1, 0x1000, 12);
    assert_eq!(w.id, 64);
    assert_eq!(w.args, [1, 0x1000, 12]);
    let e = rt_sys::enable_timer_interrupt();
    assert_eq!((e.id, e.args), (250, [1, 0, 0]));
    let d = rt_sys::disable_timer_interrupt();
    assert_eq!((d.id, d.args), (250, [0, 0, 0]));
    let y = rt_sys::uyield();
    assert_eq!((y.id, y.args), (124, [0, 0, 0]));
}

#[test]
fn user_syscall_requests() {
    assert_eq!(user::dup(3), Syscall::Dup { fd: 3 });
    assert_eq!(user::open(0x10, OpenFlags { bits: OPEN_CREATE | OPEN_WRONLY }), Syscall::Open { path: 0x10, flags: 513 });
    assert_eq!(user::mutex_create(), Syscall::MutexCreate { blocking: false });
    assert_eq!(user::mutex_blocking_create(), Syscall::MutexCreate { blocking: true });
    assert_eq!(user::condvar_create(), Syscall::CondvarCreate { arg: 0 });
    assert_eq!(user::wait(0x20), Syscall::WaitPid { child: -1, exit_code_addr: 0x20 });
    assert_eq!(user::waitpid(7, 0x20), Syscall::WaitPid { child: 7, exit_code_addr: 0x20 });
    assert_eq!(user::waitpid_nb(7, 0x24), Syscall::WaitPid { child: 7, exit_code_addr: 0x24 });
    assert_eq!(user::waittid(2), Syscall::WaitTid { tid: 2 });
    assert_eq!(user::exit(-1), Syscall::Exit { exit_code: -1 });
    assert_eq!(user::yield_(), Syscall::Yield);
    assert_eq!(user::kill(4, 9), Syscall::Kill { pid: 4, signal: 9 });
    assert_eq!(user::init_coroutine(0x88), Syscall::InitCoroutine { prio_addr: 0x88 });
}

#[test]
fn wait_retries_only_on_minus_two() {
    assert_eq!(user::wait_step(-2), WaitStep::Retry);
    assert_eq!(user::wait_step(-1), WaitStep::Done(-1));
    assert_eq!(user::wait_step(5), WaitStep::Done(5));
}

#[test]
fn async_requests_and_call_submitted_once() {
    let r = async_sys_read(3, 0x100, 40, 0, 7, 333);
    assert_eq!((r.id, r.args), (ASYNC_SYSCALL_READ, [3, 0x100, 40, 0, 7, 333]));
    let w = async_sys_write(4, 0x200, 12, 1, 7, 333);
    assert_eq!((w.id, w.args), (ASYNC_SYSCALL_WRITE, [4, 0x200, 12, 1, 7, 333]));
    let aw = user::async_write(4, 0x200, 12, 1, 7, 333);
    assert_eq!((aw.id, aw.args), (2502, [4, 0x200, 12, 1, 7, 333]));
    let mut call = AsyncCall::new(ASYNC_SYSCALL_READ, 3, 0x100, 40, 0, 7, 333);
    assert_eq!(call.tid(), 0);
    let first = call.submit().expect("first poll submits");
    assert_eq!((first.id, first.args), (2501, [3, 0x100, 40, 0, 7, 333]));
    assert!(call.submit().is_none());
    let mut other = AsyncCall::new(9, 0, 0, 0, 0, 0, 0);
    assert!(other.submit().is_none());
    assert!(other.submit().is_none());
}

#[test]
fn plic_context_and_routing() {
    assert_eq!(get_context(0, 'M'), 0);
    assert_eq!(get_context(0, 'S'), 1);
    assert_eq!(get_context(2, 'U'), 8);
    assert_eq!(external_irq_action(13, true), IrqAction::User);
    assert_eq!(external_irq_action(13, false), IrqAction::Serial(1));
    assert_eq!(external_irq_action(3, false), IrqAction::Unsupported);
}

#[test]
fn serial_ids_and_addresses() {
    assert_eq!(irq_to_serial_id(12), 0);
    assert_eq!(irq_to_serial_id(15), 3);
    assert_eq!(irq_to_serial_id(99), 0);
    assert_eq!(get_base_addr_from_irq(14), 0x1000_4000);
    assert_eq!(get_base_addr_from_irq(1), 0x1000_2000);
}

#[test]
fn serial_receive_and_read_in_order() {
    let mut s = BufferedSerial::new();
    assert_eq!(s.try_read(&vec![]), Err(WouldBlock));
    let act = s.interrupt_handler(Some(InterruptKind::ReceivedDataAvailable), &vec![b'h', b'i']);
    assert_eq!(act.dropped, 0);
    assert_eq!(s.intr_count, 1);
    assert_eq!(s.rx_count, 2);
    assert_eq!(s.try_read(&vec![]), Ok(b'h'));
    assert_eq!(s.try_read(&vec![]), Ok(b'i'));
    assert_eq!(s.try_read(&vec![]), Err(WouldBlock));
}

#[test]
fn serial_receive_drops_beyond_capacity() {
    let mut s = BufferedSerial::new();
    let bytes = vec![7u8; DEFAULT_TX_BUFFER_SIZE + 5];
    let act = s.interrupt_handler(Some(InterruptKind::Timeout), &bytes);
    assert_eq!(act.dropped, 5);
    assert_eq!(s.rx_buffer.len(), DEFAULT_TX_BUFFER_SIZE);
    assert_eq!(s.rx_count, DEFAULT_TX_BUFFER_SIZE);
}

#[test]
fn serial_transmit_in_fifo_chunks() {
    let mut s = BufferedSerial::new();
    assert_eq!(s.try_write(1, false), WriteStep::Queued { enable_thre: true });
    assert_eq!(s.try_write(2, true), WriteStep::Queued { enable_thre: false });
    for b in 3..=20u8 {
        s.try_write(b, true);
    }
    let act = s.interrupt_handler(Some(InterruptKind::TransmitterHoldingRegisterEmpty), &vec![]);
    assert_eq!(act.write, (1..=FIFO_DEPTH as u8).collect::<Vec<u8>>());
    assert!(!act.disable_thre);
    assert_eq!(s.tx_count, FIFO_DEPTH);
    let act = s.interrupt_handler(Some(InterruptKind::TransmitterHoldingRegisterEmpty), &vec![]);
    assert_eq!(act.write, vec![17, 18, 19, 20]);
    assert!(act.disable_thre);
    assert_eq!(s.tx_count, 20);
}

#[test]
fn serial_transmit_buffer_full_blocks() {
    let mut s = BufferedSerial::new();
    for _ in 0..DEFAULT_TX_BUFFER_SIZE {
        s.try_write(0, true);
    }
    assert_eq!(s.try_write(1, true), WriteStep::WouldBlock);
    assert_eq!(s.tx_buffer.len(), DEFAULT_TX_BUFFER_SIZE);
}

#[test]
fn serial_other_interrupts() {
    let mut s = BufferedSerial::new();
    let none = s.interrupt_handler(None, &vec![]);
    assert!(!none.unsupported);
    assert_eq!(s.intr_count, 0);
    let modem = s.interrupt_handler(Some(InterruptKind::ModemStatus), &vec![]);
    assert!(!modem.unsupported);
    let line = s.interrupt_handler(Some(InterruptKind::ReceiverLineStatus), &vec![]);
    assert!(line.unsupported);
    assert_eq!(s.intr_count, 2);
}

#[test]
fn process_queue_picks_highest_priority_and_rotates() {
    let mut procs: ProcessTable<&'static str> = ProcessTable::new();
    let mut tm = TaskManager::new();
    assert_eq!(tm.fetch(&mut procs), None);
    procs.insert_into_pid2process(1, Process { prio: 2, ready_tasks: vec!["a1", "a2"] });
    procs.insert_into_pid2process(2, Process { prio: 5, ready_tasks: vec![] });
    procs.insert_into_pid2process(3, Process { prio: 2, ready_tasks: vec!["c1"] });
    tm.push(1);
    tm.push(2);
    tm.push(3);
    // the idle process 2 is skipped; 1 and 3 tie, the earlier wins
    assert_eq!(tm.fetch(&mut procs), Some("a2"));
    // 1 moved to the back: 3 is now earlier
    assert_eq!(tm.fetch(&mut procs), Some("c1"));
    tm.add(&mut procs, 2, "b1");
    assert_eq!(tm.fetch(&mut procs), Some("b1"));
    assert_eq!(tm.fetch(&mut procs), Some("a1"));
    assert_eq!(tm.fetch(&mut procs), None);
    // a thread added to an unknown process is dropped
    tm.add(&mut procs, 9, "nobody");
    assert_eq!(tm.fetch(&mut procs), None);
    // a dequeued but live process still collects ready threads
    tm.remove(1);
    tm.add(&mut procs, 1, "kept");
    assert_eq!(tm.fetch(&mut procs), None);
    tm.push(1);
    assert_eq!(tm.fetch(&mut procs), Some("kept"));
}

#[test]
fn process_queue_follows_current_priorities() {
    let mut procs: ProcessTable<u8> = ProcessTable::new();
    let mut tm = TaskManager::new();
    procs.insert_into_pid2process(1, Process { prio: 1, ready_tasks: vec![10, 11] });
    procs.insert_into_pid2process(2, Process { prio: 3, ready_tasks: vec![20, 21] });
    tm.push(1);
    tm.push(2);
    assert_eq!(tm.fetch(&mut procs), Some(21));
    procs.set_prio(1, 7);
    assert_eq!(tm.fetch(&mut procs), Some(11));
    procs.remove_from_pid2process(1);
    assert_eq!(tm.fetch(&mut procs), Some(20));
    assert_eq!(tm.fetch(&mut procs), None);
}

#[test]
fn async_write_and_read_handlers() {
    assert_eq!(async_wr::async_sys_write(5, 0x40, 12, 0, 1, 333), AsyncWrite { write_fd: 5, buf: 0x40, len: 12, close_fd: 5, wake_pid: 1, wake_key: 333, ret: 0 });
    assert_eq!(async_wr::async_sys_read(5, 0x40, 12, 0, 1, 0), -1);
}

#[test]
fn serial_read_drains_fifo_when_buffer_empty() {
    let mut s = BufferedSerial::new();
    assert_eq!(s.try_read(&vec![b'o', b'k']), Ok(b'o'));
    assert_eq!(s.rx_count, 2);
    // the buffered byte comes first; the FIFO is not consulted
    assert_eq!(s.try_read(&vec![b'x']), Ok(b'k'));
    assert_eq!(s.rx_count, 2);
    assert_eq!(s.try_read(&vec![]), Err(WouldBlock));
}

#[test]
fn pid2process_finds_live_processes_only() {
    let mut procs: ProcessTable<u8> = ProcessTable::new();
    assert!(procs.pid2process(4).is_none());
    procs.insert_into_pid2process(4, Process { prio: 6, ready_tasks: vec![1, 2] });
    let p = procs.pid2process(4).expect("process 4 is live");
    assert_eq!((p.prio, p.ready_tasks.clone()), (6, vec![1, 2]));
    assert!(procs.pid2process(5).is_none());
    procs.remove_from_pid2process(4);
    assert!(procs.pid2process(4).is_none());
}

#[test]
fn async_write_call_submits_once_over_many_polls() {
    let mut call = AsyncCall::new(ASYNC_SYSCALL_WRITE, 6, 0x300, 8, 2, 1, 444);
    let first = call.submit().expect("first poll submits");
    assert_eq!((first.id, first.args), (2502, [6, 0x300, 8, 2, 1, 444]));
    for _ in 0..5 {
        assert!(call.submit().is_none());
    }
}
