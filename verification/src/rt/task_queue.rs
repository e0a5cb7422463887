use vstd::prelude::*;
use std::collections::VecDeque;
use crate::config::{PRIO_NUM, MAX_USER, MAX_THREAD};
use crate::queues::{items, first_nonempty, lemma_items_push, lemma_items_pop, lemma_items_len,
    lemma_first_nonempty, lemma_first_nonempty_is};
use crate::rt::bitmap::BitMap;
use crate::rt::user_task::TaskId;
use crate::arrival::{Leveled, at_level, urgent_index, take_urgent, levels_below, lemma_urgent_index,
    lemma_at_level_push, lemma_at_level_members, lemma_at_level_remove_first, lemma_at_level_remove_other};

verus! {

broadcast use vstd::std_specs::vecdeque::group_vec_dequeue_axioms, vstd::std_specs::vec::group_vec_axioms;

/// The priority bitmaps of every (address space, thread) pair, shared by the
/// kernel and all user spaces: `MAX_USER` rows of `MAX_THREAD` bitmaps.
pub struct BitMaps {
    rows: Vec<Vec<BitMap>>,
}

impl BitMaps {
    /// The bitmap word of thread `thread_id` of space `pid`.
    pub closed spec fn word(&self, pid: int, thread_id: int) -> usize {
        self.rows@[pid]@[thread_id].0
    }

    /// All `MAX_USER` rows hold `MAX_THREAD` bitmaps.
    pub closed spec fn wf(&self) -> bool {
        &&& self.rows@.len() == MAX_USER
        &&& forall|i: int| 0 <= i < MAX_USER ==> #[trigger] self.rows@[i]@.len() == MAX_THREAD
    }

    /// A table of empty bitmaps.
    pub fn new() -> (r: Self)
        ensures
            r.wf(),
            forall|i: int, j: int| 0 <= i < MAX_USER && 0 <= j < MAX_THREAD ==> #[trigger] r.word(i, j) == 0,
    {
        let mut rows: Vec<Vec<BitMap>> = Vec::new();
        let mut i: usize = 0;
        while i < MAX_USER
            invariant
                i <= MAX_USER,
                rows@.len() == i,
                forall|a: int| 0 <= a < i ==> #[trigger] rows@[a]@.len() == MAX_THREAD,
                forall|a: int, b: int| 0 <= a < i && 0 <= b < MAX_THREAD ==> #[trigger] rows@[a]@[b].0 == 0,
            decreases MAX_USER - i,
        {
            let mut row: Vec<BitMap> = Vec::new();
            let mut j: usize = 0;
            while j < MAX_THREAD
                invariant
                    j <= MAX_THREAD,
                    row@.len() == j,
                    forall|b: int| 0 <= b < j ==> #[trigger] row@[b].0 == 0,
                decreases MAX_THREAD - j,
            {
                row.push(BitMap::new());
                j = j + 1;
            }
            rows.push(row);
            i = i + 1;
        }
        BitMaps { rows }
    }

    /// The bitmap word of thread `thread_id` of space `pid`.
    pub fn get_val(&self, pid: usize, thread_id: usize) -> (r: usize)
        requires
            self.wf(),
            pid < MAX_USER,
            thread_id < MAX_THREAD,
        ensures
            r == self.word(pid as int, thread_id as int),
    {
        self.rows[pid][thread_id].get_val()
    }

    /// The most urgent marked level of thread `thread_id` of space `pid`
    /// (`PRIO_NUM` when none is marked).
    pub fn get_priority(&self, pid: usize, thread_id: usize) -> (r: usize)
        requires
            self.wf(),
            pid < MAX_USER,
            thread_id < MAX_THREAD,
        ensures
            r == BitMap(self.word(pid as int, thread_id as int)).priority_spec(),
            r <= PRIO_NUM,
            r < PRIO_NUM ==> BitMap(self.word(pid as int, thread_id as int)).has(r),
            forall|j: usize| j < r ==> !#[trigger] BitMap(self.word(pid as int, thread_id as int)).has(j),
    {
        self.rows[pid][thread_id].get_priority()
    }

    /// Sets the whole bitmap word of thread `thread_id` of space `pid`;
    /// every other bitmap is left alone.
    pub fn set_val(&mut self, pid: usize, thread_id: usize, word: usize)
        requires
            old(self).wf(),
            pid < MAX_USER,
            thread_id < MAX_THREAD,
        ensures
            final(self).wf(),
            final(self).word(pid as int, thread_id as int) == word,
            forall|i: int, j: int| 0 <= i < MAX_USER && 0 <= j < MAX_THREAD && (i != pid || j != thread_id)
                ==> #[trigger] final(self).word(i, j) == old(self).word(i, j),
    {
        self.rows[pid][thread_id] = BitMap(word);
        proof {
            assert forall|i: int| 0 <= i < MAX_USER implies #[trigger] self.rows@[i]@.len() == MAX_THREAD by {
                if i != pid {
                    assert(self.rows@[i] == old(self).rows@[i]);
                }
            }
            assert forall|i: int, j: int| 0 <= i < MAX_USER && 0 <= j < MAX_THREAD && (i != pid || j != thread_id)
                implies #[trigger] self.word(i, j) == old(self).word(i, j) by {
                if i != pid {
                    assert(self.rows@[i] == old(self).rows@[i]);
                }
            }
        }
    }

    /// Marks or clears level `prio` in the bitmap of thread `thread_id` of
    /// space `pid`; every other bitmap is left alone.
    pub fn update(&mut self, pid: usize, thread_id: usize, prio: usize, val: bool)
        requires
            old(self).wf(),
            pid < MAX_USER,
            thread_id < MAX_THREAD,
            prio < usize::BITS,
        ensures
            final(self).wf(),
            final(self).word(pid as int, thread_id as int) == crate::bits::with_bit(old(self).word(pid as int, thread_id as int), prio, val),
            BitMap(final(self).word(pid as int, thread_id as int)).has(prio) == val,
            forall|j: usize| j < usize::BITS && j != prio ==> #[trigger] BitMap(final(self).word(pid as int, thread_id as int)).has(j)
                == BitMap(old(self).word(pid as int, thread_id as int)).has(j),
            forall|i: int, j: int| 0 <= i < MAX_USER && 0 <= j < MAX_THREAD && (i != pid || j != thread_id)
                ==> #[trigger] final(self).word(i, j) == old(self).word(i, j),
    {
        self.rows[pid][thread_id].update(prio, val);
        proof {
            assert forall|i: int| 0 <= i < MAX_USER implies #[trigger] self.rows@[i]@.len() == MAX_THREAD by {
                if i != pid {
                    assert(self.rows@[i] == old(self).rows@[i]);
                }
            }
            assert forall|i: int, j: int| 0 <= i < MAX_USER && 0 <= j < MAX_THREAD && (i != pid || j != thread_id)
                implies #[trigger] self.word(i, j) == old(self).word(i, j) by {
                if i != pid {
                    assert(self.rows@[i] == old(self).rows@[i]);
                }
            }
        }
    }
}

/// Ready coroutines of one thread of one address space, one FIFO queue per
/// priority level; the thread's bitmap in the shared table marks the
/// non-empty levels.
pub struct TaskQueue {
    queue: Vec<VecDeque<TaskId>>,
    pid: usize,
    thread_id: usize,
    task_num: usize,
}

impl TaskQueue {
    /// The queues, level by level.
    pub closed spec fn queues(&self) -> Seq<Seq<TaskId>> {
        Seq::new(self.queue@.len(), |p: int| self.queue@[p]@)
    }

    /// The number of queued tasks as the queue counts them.
    pub closed spec fn num(&self) -> usize {
        self.task_num
    }

    /// The address space this queue belongs to.
    pub closed spec fn owner_pid(&self) -> usize {
        self.pid
    }

    /// The thread this queue belongs to.
    pub closed spec fn owner_thread(&self) -> usize {
        self.thread_id
    }

    /// `PRIO_NUM` levels and `task_num` the number of queued tasks.
    pub open spec fn wf(&self) -> bool {
        &&& self.queues().len() == PRIO_NUM
        &&& self.num() == items(self.queues()).len()
    }

    /// The owner's bitmap in `bitmaps` marks exactly the non-empty levels.
    pub open spec fn synced(&self, bitmaps: &BitMaps) -> bool {
        forall|p: usize| p < PRIO_NUM ==> (#[trigger] BitMap(bitmaps.word(self.owner_pid() as int, self.owner_thread() as int)).has(p)
            <==> self.queues()[p as int].len() > 0)
    }

    /// An empty queue set for thread `thread_id` of space `pid`.
    pub fn new(pid: usize, thread_id: usize) -> (r: Self)
        ensures
            r.wf(),
            r.owner_pid() == pid,
            r.owner_thread() == thread_id,
            r.queues().len() == PRIO_NUM,
            forall|p: int| 0 <= p < PRIO_NUM ==> #[trigger] r.queues()[p].len() == 0,
            r.num() == 0,
    {
        let mut queue: Vec<VecDeque<TaskId>> = Vec::new();
        let mut i: usize = 0;
        while i < PRIO_NUM
            invariant
                i <= PRIO_NUM,
                queue@.len() == i,
                forall|p: int| 0 <= p < i ==> #[trigger] queue@[p]@.len() == 0,
            decreases PRIO_NUM - i,
        {
            queue.push(VecDeque::new());
            i = i + 1;
        }
        let r = TaskQueue { queue, pid, thread_id, task_num: 0 };
        proof {
            lemma_items_len(r.queues());
        }
        r
    }

    /// The number of queued tasks.
    pub fn task_num(&self) -> (r: usize)
        ensures
            r == self.num(),
    {
        self.task_num
    }

    /// Appends `tid` to level `prio` and marks that level in the owner's bitmap.
    pub fn add_tid(&mut self, tid: TaskId, prio: usize, bitmaps: &mut BitMaps)
        requires
            old(self).wf(),
            old(bitmaps).wf(),
            old(self).owner_pid() < MAX_USER,
            old(self).owner_thread() < MAX_THREAD,
            prio < PRIO_NUM,
            old(self).num() < usize::MAX,
        ensures
            final(self).wf(),
            final(bitmaps).wf(),
            final(self).owner_pid() == old(self).owner_pid(),
            final(self).owner_thread() == old(self).owner_thread(),
            final(self).queues() == old(self).queues().update(prio as int, old(self).queues()[prio as int].push(tid)),
            final(self).num() == old(self).num() + 1,
            final(bitmaps).word(old(self).owner_pid() as int, old(self).owner_thread() as int)
                == crate::bits::with_bit(old(bitmaps).word(old(self).owner_pid() as int, old(self).owner_thread() as int), prio, true),
            forall|i: int, j: int| 0 <= i < MAX_USER && 0 <= j < MAX_THREAD && (i != old(self).owner_pid() || j != old(self).owner_thread())
                ==> #[trigger] final(bitmaps).word(i, j) == old(bitmaps).word(i, j),
            old(self).synced(old(bitmaps)) ==> final(self).synced(final(bitmaps)),
    {
        proof {
            lemma_items_push(self.queues(), prio as int, tid);
        }
        self.queue[prio].push_back(tid);
        bitmaps.update(self.pid, self.thread_id, prio, true);
        self.task_num += 1;
        proof {
            assert(self.queues() =~= old(self).queues().update(prio as int, old(self).queues()[prio as int].push(tid)));
        }
    }

    /// Takes the head of the most urgent level marked in the owner's bitmap
    /// and clears the mark when the level empties; `None` when nothing is queued.
    pub fn pop_tid(&mut self, bitmaps: &mut BitMaps) -> (r: Option<TaskId>)
        requires
            old(self).wf(),
            old(bitmaps).wf(),
            old(self).num() > 0 ==> old(self).owner_pid() < MAX_USER,
            old(self).num() > 0 ==> old(self).owner_thread() < MAX_THREAD,
            old(self).num() > 0 ==> old(self).synced(old(bitmaps)),
        ensures
            final(self).wf(),
            final(bitmaps).wf(),
            old(self).synced(old(bitmaps)) ==> final(self).synced(final(bitmaps)),
            old(self).num() == 0 ==> r is None,
            final(self).owner_pid() == old(self).owner_pid(),
            final(self).owner_thread() == old(self).owner_thread(),
            forall|i: int, j: int| 0 <= i < MAX_USER && 0 <= j < MAX_THREAD && (i != old(self).owner_pid() || j != old(self).owner_thread())
                ==> #[trigger] final(bitmaps).word(i, j) == old(bitmaps).word(i, j),
            match r {
                Some(t) => {
                    let p = first_nonempty(old(self).queues());
                    &&& p < PRIO_NUM
                    &&& t == old(self).queues()[p][0]
                    &&& final(self).queues() == old(self).queues().update(p, old(self).queues()[p].drop_first())
                    &&& final(self).num() == old(self).num() - 1
                },
                None => {
                    &&& final(self).queues() == old(self).queues()
                    &&& final(self).num() == old(self).num()
                    &&& old(self).num() == 0
                    &&& *final(bitmaps) == *old(bitmaps)
                },
            },
    {
        proof {
            lemma_items_len(self.queues());
            lemma_first_nonempty(self.queues());
        }
        if self.task_num == 0 {
            return None;
        }
        let prio = bitmaps.get_priority(self.pid, self.thread_id);
        proof {
            let q = self.queues();
            let bm = BitMap(bitmaps.word(self.owner_pid() as int, self.owner_thread() as int));
            assert forall|j: int| 0 <= j < prio implies #[trigger] q[j].len() == 0 by {
                let ju = j as usize;
                assert(!bm.has(ju));
                assert(bm.has(ju) <==> q[ju as int].len() > 0);
            }
            if prio < PRIO_NUM {
                assert(bm.has(prio));
                assert(bm.has(prio) <==> q[prio as int].len() > 0);
            }
            lemma_first_nonempty_is(q, prio as int);
        }
        if prio == PRIO_NUM {
            None
        } else {
            proof {
                lemma_items_pop(self.queues(), prio as int);
            }
            self.task_num -= 1;
            let ret = self.queue[prio].pop_front();
            if self.queue[prio].len() == 0 {
                bitmaps.update(self.pid, self.thread_id, prio, false);
            }
            proof {
                let oq = old(self).queues();
                assert(oq[prio as int].drop_first() =~= oq[prio as int].subrange(1, oq[prio as int].len() as int));
                assert(self.queues() =~= oq.update(prio as int, oq[prio as int].drop_first()));
            }
            ret
        }
    }

    /// Whether no task is queued.
    pub fn is_empty(&self) -> (r: bool)
        ensures
            r == (self.num() == 0),
    {
        self.task_num == 0
    }
}


/// The count of a consistent queue is zero exactly when every level is empty.
pub proof fn task_queue_empty_iff_drained(q: TaskQueue)
    requires
        q.wf(),
    ensures
        (q.num() == 0) <==> forall|p: int| 0 <= p < PRIO_NUM ==> #[trigger] q.queues()[p].len() == 0,
{
    lemma_items_len(q.queues());
}

/// A task added at a level.
impl Leveled for (TaskId, usize) {
    open spec fn level(&self) -> int {
        self.1 as int
    }
}

/// One call on a task queue: an `add_tid` of a task at a level, or a
/// `pop_tid` with what it returned.
pub enum QueueOp {
    Add(TaskId, usize),
    Pop(Option<TaskId>),
}

/// `after` is what `op` leaves of `before`, as `add_tid` and `pop_tid` state it.
pub open spec fn queue_step(before: TaskQueue, op: QueueOp, after: TaskQueue) -> bool {
    match op {
        QueueOp::Add(t, p) => {
            &&& p < PRIO_NUM
            &&& after.queues() == before.queues().update(p as int, before.queues()[p as int].push(t))
            &&& after.num() == before.num() + 1
        },
        QueueOp::Pop(r) => match r {
            Some(t) => {
                let p = first_nonempty(before.queues());
                &&& p < PRIO_NUM
                &&& t == before.queues()[p][0]
                &&& after.queues() == before.queues().update(p, before.queues()[p].drop_first())
                &&& after.num() == before.num() - 1
            },
            None => {
                &&& after.queues() == before.queues()
                &&& after.num() == before.num()
                &&& before.num() == 0
            },
        },
    }
}

/// The ids of entries, in order.
pub open spec fn entry_ids(l: Seq<(TaskId, usize)>) -> Seq<TaskId> {
    l.map_values(|e: (TaskId, usize)| e.0)
}

/// The tasks added by `ops` and not yet handed out, with their levels, in
/// the order they were added, when each pop hands out the earliest-added
/// task of the most urgent level.
pub open spec fn queued_after(ops: Seq<QueueOp>) -> Seq<(TaskId, usize)>
    decreases ops.len(),
{
    if ops.len() == 0 {
        Seq::empty()
    } else {
        let l = queued_after(ops.drop_last());
        match ops.last() {
            QueueOp::Add(t, p) => l.push((t, p)),
            QueueOp::Pop(_) => take_urgent(l).1,
        }
    }
}

/// How many tasks `ops` add.
pub open spec fn adds(ops: Seq<QueueOp>) -> int
    decreases ops.len(),
{
    if ops.len() == 0 {
        0
    } else {
        adds(ops.drop_last()) + if ops.last() is Add { 1int } else { 0int }
    }
}

/// How many pops of `ops` hand out a task.
pub open spec fn served(ops: Seq<QueueOp>) -> int
    decreases ops.len(),
{
    if ops.len() == 0 {
        0
    } else {
        served(ops.drop_last()) + if ops.last() matches QueueOp::Pop(Some(_)) { 1int } else { 0int }
    }
}

/// Each level of `q` holds exactly the ids of the entries of `l` at that
/// level, in their order in `l`, and the count is the number of entries.
pub open spec fn queue_holds_in_order(q: TaskQueue, l: Seq<(TaskId, usize)>) -> bool {
    &&& levels_below(l, PRIO_NUM as int)
    &&& forall|p: int| 0 <= p < PRIO_NUM ==> #[trigger] q.queues()[p] == entry_ids(at_level(l, p))
    &&& q.num() == l.len()
}

/// One add or pop keeps the levels in arrival order, and a pop hands out
/// the earliest-added task of the most urgent level.
proof fn lemma_queue_step(q: TaskQueue, op: QueueOp, q2: TaskQueue, l: Seq<(TaskId, usize)>)
    requires
        q.wf(),
        queue_holds_in_order(q, l),
        queue_step(q, op, q2),
    ensures
        queue_holds_in_order(q2, match op { QueueOp::Add(t, p) => l.push((t, p)), QueueOp::Pop(_) => take_urgent(l).1 }),
        op matches QueueOp::Pop(r) ==> r == (match take_urgent(l).0 { Some(e) => Some(e.0), None => None::<TaskId> }),
{
    let qs = q.queues();
    match op {
        QueueOp::Add(t, p) => {
            let l2 = l.push((t, p));
            assert forall|v: int| 0 <= v < PRIO_NUM implies #[trigger] q2.queues()[v] == entry_ids(at_level(l2, v)) by {
                lemma_at_level_push(l, (t, p), v);
                assert(entry_ids(at_level(l, v).push((t, p))) =~= entry_ids(at_level(l, v)).push(t));
            }
            assert forall|j: int| 0 <= j < l2.len() implies 0 <= #[trigger] l2[j].level() < PRIO_NUM by {
                if j < l.len() {
                    assert(l2[j] == l[j]);
                }
            }
        },
        QueueOp::Pop(r) => {
            lemma_first_nonempty(qs);
            if l.len() == 0 {
                assert forall|v: int| 0 <= v < qs.len() implies #[trigger] qs[v].len() == 0 by {
                    lemma_at_level_members(l, v);
                }
                lemma_first_nonempty_is(qs, qs.len() as int);
            } else {
                lemma_urgent_index(l);
                let i = urgent_index(l);
                let m = l[i].level();
                assert forall|v: int| 0 <= v < m implies #[trigger] qs[v].len() == 0 by {
                    lemma_at_level_members(l, v);
                }
                lemma_at_level_remove_first(l, i);
                lemma_first_nonempty_is(qs, m);
                let l2 = l.remove(i);
                assert(r is Some);
                assert forall|v: int| 0 <= v < PRIO_NUM implies #[trigger] q2.queues()[v] == entry_ids(at_level(l2, v)) by {
                    if v != m {
                        lemma_at_level_remove_other(l, i, v);
                    } else {
                        assert(entry_ids(at_level(l, m).drop_first()) =~= entry_ids(at_level(l, m)).drop_first());
                    }
                }
                assert forall|j: int| 0 <= j < l2.len() implies 0 <= #[trigger] l2[j].level() < PRIO_NUM by {
                    if j < i {
                        assert(l2[j] == l[j]);
                    } else {
                        assert(l2[j] == l[j + 1]);
                    }
                }
            }
        },
    }
}

/// After the first `k` calls of a run from an empty queue, the levels hold
/// the tasks still queued in the order they were added, and the count is
/// the number of adds less the number of pops that handed out a task.
proof fn lemma_queue_prefix(states: Seq<TaskQueue>, ops: Seq<QueueOp>, k: int)
    requires
        states.len() == ops.len() + 1,
        forall|n: int| 0 <= n < states.len() ==> #[trigger] states[n].wf(),
        states[0].num() == 0,
        forall|n: int| 0 <= n < ops.len() ==> queue_step(#[trigger] states[n], ops[n], states[n + 1]),
        0 <= k <= ops.len(),
    ensures
        queue_holds_in_order(states[k], queued_after(ops.take(k))),
        states[k].num() == adds(ops.take(k)) - served(ops.take(k)),
    decreases k,
{
    if k == 0 {
        let qs = states[0].queues();
        assert(states[0].wf());
        lemma_items_len(qs);
        assert(ops.take(0) =~= Seq::<QueueOp>::empty());
        assert forall|p: int| 0 <= p < PRIO_NUM implies #[trigger] qs[p] == entry_ids(at_level(Seq::<(TaskId, usize)>::empty(), p)) by {
            assert(qs[p].len() == 0);
            assert(qs[p] =~= entry_ids(Seq::<(TaskId, usize)>::empty()));
        }
    } else {
        lemma_queue_prefix(states, ops, k - 1);
        assert(ops.take(k).drop_last() =~= ops.take(k - 1));
        assert(queue_step(states[k - 1], ops[k - 1], states[k]));
        lemma_queue_step(states[k - 1], ops[k - 1], states[k], queued_after(ops.take(k - 1)));
    }
}

/// Strict priority with first in, first out within a level, over any run of
/// `add_tid` and `pop_tid` calls from an empty task queue: after every
/// prefix of the run each level holds exactly the tasks added at it and not
/// yet handed out, in the order they were added; every pop hands out the
/// earliest-added task of the most urgent level still queued (nothing when
/// none is); and the queue is empty exactly when as many pops handed out a
/// task as tasks were added.
pub proof fn task_queue_history(states: Seq<TaskQueue>, ops: Seq<QueueOp>)
    requires
        states.len() == ops.len() + 1,
        forall|n: int| 0 <= n < states.len() ==> #[trigger] states[n].wf(),
        states[0].num() == 0,
        forall|n: int| 0 <= n < ops.len() ==> queue_step(#[trigger] states[n], ops[n], states[n + 1]),
    ensures
        forall|k: int| 0 <= k < states.len() ==> #[trigger] queue_holds_in_order(states[k], queued_after(ops.take(k))),
        forall|k: int| 0 <= k < ops.len() ==> (#[trigger] ops[k] matches QueueOp::Pop(r)
            ==> r == (match take_urgent(queued_after(ops.take(k))).0 { Some(e) => Some(e.0), None => None::<TaskId> })),
        forall|k: int| 0 <= k < states.len() ==> ((#[trigger] states[k].num() == 0) <==> adds(ops.take(k)) == served(ops.take(k))),
{
    assert forall|k: int| 0 <= k < states.len() implies #[trigger] queue_holds_in_order(states[k], queued_after(ops.take(k))) by {
        lemma_queue_prefix(states, ops, k);
    }
    assert forall|k: int| 0 <= k < ops.len() implies (#[trigger] ops[k] matches QueueOp::Pop(r)
        ==> r == (match take_urgent(queued_after(ops.take(k))).0 { Some(e) => Some(e.0), None => None::<TaskId> })) by {
        lemma_queue_prefix(states, ops, k);
        assert(queue_step(states[k], ops[k], states[k + 1]));
        lemma_queue_step(states[k], ops[k], states[k + 1], queued_after(ops.take(k)));
    }
    assert forall|k: int| 0 <= k < states.len() implies ((#[trigger] states[k].num() == 0) <==> adds(ops.take(k)) == served(ops.take(k))) by {
        lemma_queue_prefix(states, ops, k);
    }
}

} // verus!
