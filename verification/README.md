# async_os

The verified core of a small RISC-V teaching kernel whose processes run
Rust coroutines, written in Verus.

- `src/rt`: the shared coroutine runtime the kernel loads and every address
  space calls into: priority bitmaps, the strict-priority scheduler, per-thread
  task queues, task managers, the write-to-reader wake-up map, the global pick
  of the threads holding the most urgent coroutines, wake-up delivery, and the
  decisions of the kernel and user coroutine loops.
- `src/coroutine`: the user-side coroutine runtime of one address space.
- `src/user`: the user library's system calls, as requests.
- `src/os`: interrupt routing, the buffered serial port, the kernel's process
  queue and the asynchronous read/write handlers.
- `src/queues.rs`, `src/arrival.rs`, `src/bits.rs`, `src/counter.rs`: shared
  models (a row of FIFO queues as a multiset, pending work in arrival order
  level by level, bit operations through `bit_field`, the task-id counter).
- `app/`: the unverified surroundings: trapping into the kernel, polling
  futures, global state behind locks, and the 8250 serial hardware.
