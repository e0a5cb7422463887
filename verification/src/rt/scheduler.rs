use vstd::prelude::*;
use vstd::multiset::Multiset;
use std::collections::VecDeque;
use crate::config::PRIO_NUM;
use crate::counter::TaskCounter;
use crate::queues::{items, first_nonempty, lemma_items_push, lemma_items_pop, lemma_items_len,
    lemma_first_nonempty, lemma_first_nonempty_is, lemma_items_member};
use crate::rt::bitmap::BitMap;
use crate::bits::{bit_of, with_bit};
use crate::arrival::{Leveled, at_level, urgent_index, take_urgent, levels_below, lemma_urgent_index,
    lemma_at_level_push, lemma_at_level_members, lemma_at_level_remove_first, lemma_at_level_remove_other};

verus! {

broadcast use vstd::std_specs::vecdeque::group_vec_dequeue_axioms, vstd::std_specs::vec::group_vec_axioms;

/// A scheduled coroutine: its id and its priority level.
#[derive(PartialEq, Eq, Structural, Debug, Clone, Copy, Hash, Ord, PartialOrd)]
pub struct TaskId {
    pub tid: usize,
    pub prio: usize,
}

impl TaskId {
    /// Draws the next task id from `counter`; ids above `usize::MAX / 2` are
    /// refused ("too many tasks"), so the counter must not have passed that bound.
    pub fn generate(counter: &mut TaskCounter) -> (id: usize)
        requires
            old(counter).value() <= usize::MAX / 2,
        ensures
            id == old(counter).value(),
            final(counter).value() == old(counter).value() + 1,
    {
        counter.fetch_inc()
    }
}

/// What the runtime asks of a coroutine scheduler. `pending` is every queued
/// task, `next_task` the task that `pop` hands out next (`None` when it
/// hands out nothing), and `pushed`/`popped` say exactly what state a push
/// or a pop leaves.
pub trait Scheduler: Sized + 'static {
    /// The scheduler's internal consistency.
    spec fn wf(&self) -> bool;

    /// Every queued task, with multiplicity.
    spec fn pending(&self) -> Multiset<TaskId>;

    /// The task the next `pop` hands out, if any.
    spec fn next_task(&self) -> Option<TaskId>;

    /// `self` is the state that pushing `tid` onto `before` leaves.
    spec fn pushed(&self, before: Self, tid: TaskId) -> bool;

    /// `self` is the state that a pop of `before` leaves.
    spec fn popped(&self, before: Self) -> bool;

    /// Queues `tid` (new or resumed).
    fn push(&mut self, tid: TaskId)
        requires
            old(self).wf(),
            tid.prio < PRIO_NUM,
            old(self).pending().len() < usize::MAX,
        ensures
            final(self).wf(),
            final(self).pending() == old(self).pending().insert(tid),
            final(self).pushed(*old(self), tid),
    ;

    /// Picks the task to run next and takes it off the queues.
    fn pop(&mut self) -> (r: Option<TaskId>)
        requires
            old(self).wf(),
        ensures
            final(self).wf(),
            r == old(self).next_task(),
            match r {
                Some(t) => old(self).pending().count(t) > 0 && final(self).pending() == old(
                    self,
                ).pending().remove(t),
                None => final(self).pending() == old(self).pending(),
            },
            final(self).popped(*old(self)),
    ;

    /// Whether nothing is queued.
    fn empty(&self) -> (r: bool)
        requires
            self.wf(),
        ensures
            r == (self.pending().len() == 0),
    ;
}

/// Strict-priority scheduler: one FIFO queue per level, level 0 first, with a
/// bitmap marking the non-empty levels.
pub struct PrioScheduler {
    queue: Vec<VecDeque<TaskId>>,
    bitmap: BitMap,
    task_num: usize,
}

/// The word has no bit at or above level `PRIO_NUM`.
pub open spec fn only_levels(x: usize) -> bool {
    x >> PRIO_NUM == 0
}

/// Marking or clearing a level keeps a word within the levels.
proof fn lemma_only_levels_with_bit(x: usize, p: usize, v: bool)
    requires
        only_levels(x),
        p < PRIO_NUM,
    ensures
        only_levels(with_bit(x, p, v)),
{
    assert(x >> 8usize == 0usize && p < 8usize ==> (x | (1usize << p)) >> 8usize == 0usize) by (bit_vector);
    assert(x >> 8usize == 0usize && p < 8usize ==> (x & !(1usize << p)) >> 8usize == 0usize) by (bit_vector);
}

/// A word within the levels with no level marked is zero.
proof fn lemma_only_levels_zero(x: usize)
    requires
        only_levels(x),
        forall|p: usize| p < PRIO_NUM ==> !#[trigger] bit_of(x, p),
    ensures
        x == 0,
{
    assert(!bit_of(x, 0) && !bit_of(x, 1) && !bit_of(x, 2) && !bit_of(x, 3));
    assert(!bit_of(x, 4) && !bit_of(x, 5) && !bit_of(x, 6) && !bit_of(x, 7));
    assert(x >> 8usize == 0usize
        && x & (1usize << 0usize) == 0usize && x & (1usize << 1usize) == 0usize
        && x & (1usize << 2usize) == 0usize && x & (1usize << 3usize) == 0usize
        && x & (1usize << 4usize) == 0usize && x & (1usize << 5usize) == 0usize
        && x & (1usize << 6usize) == 0usize && x & (1usize << 7usize) == 0usize ==> x == 0usize) by (bit_vector);
}

impl PrioScheduler {
    /// The queues, level by level.
    pub closed spec fn queues(&self) -> Seq<Seq<TaskId>> {
        Seq::new(self.queue@.len(), |p: int| self.queue@[p]@)
    }

    /// The bitmap word.
    pub closed spec fn word(&self) -> usize {
        self.bitmap.0
    }

    /// The task count.
    pub closed spec fn count(&self) -> usize {
        self.task_num
    }

    /// The scheduler's internal consistency: `PRIO_NUM` levels, bit `p` of the
    /// bitmap set exactly when level `p` is non-empty and no bit beyond the
    /// levels set, every queued task on its own level, and `task_num` the
    /// number of queued tasks.
    pub open spec fn inv(&self) -> bool {
        &&& self.queues().len() == PRIO_NUM
        &&& forall|p: usize| p < PRIO_NUM ==> (#[trigger] bit_of(self.word(), p) <==> self.queues()[p as int].len() > 0)
        &&& only_levels(self.word())
        &&& forall|p: int, k: int| 0 <= p < PRIO_NUM && 0 <= k < self.queues()[p].len() ==> #[trigger] self.queues()[p][k].prio == p
        &&& self.count() == items(self.queues()).len()
    }

    /// An empty scheduler with `PRIO_NUM` empty levels, a zero bitmap and a
    /// zero count.
    pub fn new() -> (r: Self)
        ensures
            r.wf(),
            r.queues().len() == PRIO_NUM,
            forall|p: int| 0 <= p < PRIO_NUM ==> #[trigger] r.queues()[p].len() == 0,
            r.pending().len() == 0,
            r.word() == 0,
            r.count() == 0,
    {
        let mut queue: Vec<VecDeque<TaskId>> = Vec::new();
        let mut i: usize = 0;
        while i < PRIO_NUM
            invariant
                i <= PRIO_NUM,
                queue@.len() == i,
                forall|p: int| 0 <= p < i ==> #[trigger] queue@[p]@.len() == 0,
            decreases PRIO_NUM - i,
        {
            queue.push(VecDeque::new());
            i = i + 1;
        }
        let r = PrioScheduler { queue, bitmap: BitMap::new(), task_num: 0 };
        proof {
            lemma_items_len(r.queues());
            assert forall|p: usize| p < PRIO_NUM implies (#[trigger] bit_of(r.word(), p) <==> r.queues()[p as int].len() > 0) by {
                crate::bits::lemma_zero_bits(p);
            }
            assert(0usize >> 8usize == 0usize) by (bit_vector);
        }
        r
    }

    /// The bitmap of non-empty levels.
    pub fn bitmap(&self) -> (r: &BitMap)
        ensures
            r.0 == self.word(),
    {
        &self.bitmap
    }

    /// The number of queued tasks.
    pub fn task_num(&self) -> (r: usize)
        ensures
            r == self.count(),
    {
        self.task_num
    }
}

impl Scheduler for PrioScheduler {
    open spec fn wf(&self) -> bool {
        self.inv()
    }

    open spec fn pending(&self) -> Multiset<TaskId> {
        items(self.queues())
    }

    open spec fn next_task(&self) -> Option<TaskId> {
        let q = self.queues();
        let p = first_nonempty(q);
        if p < q.len() {
            Some(q[p][0])
        } else {
            None
        }
    }

    /// `tid` appended to the queue of its level, the level marked, one more task.
    open spec fn pushed(&self, before: Self, tid: TaskId) -> bool {
        &&& self.queues() == before.queues().update(tid.prio as int, before.queues()[tid.prio as int].push(tid))
        &&& self.word() == with_bit(before.word(), tid.prio, true)
        &&& self.count() == before.count() + 1
    }

    /// The head of the most urgent non-empty level taken off, its mark
    /// cleared when the level empties, one task less; nothing changes when
    /// all levels are empty.
    open spec fn popped(&self, before: Self) -> bool {
        let q = before.queues();
        let p = first_nonempty(q);
        if p < q.len() {
            &&& self.queues() == q.update(p, q[p].drop_first())
            &&& self.count() == before.count() - 1
            &&& self.word() == (if q[p].len() == 1 { with_bit(before.word(), p as usize, false) } else { before.word() })
        } else {
            &&& self.queues() == q
            &&& self.count() == before.count()
            &&& self.word() == before.word()
        }
    }

    /// Appends `tid` to the queue of its level and marks the level.
    fn push(&mut self, tid: TaskId) {
        let prio = tid.prio;
        proof {
            lemma_items_push(self.queues(), prio as int, tid);
            lemma_only_levels_with_bit(self.word(), prio, true);
        }
        self.queue[prio].push_back(tid);
        self.bitmap.update(prio, true);
        self.task_num += 1;
        proof {
            let oq = old(self).queues();
            assert(self.queues() =~= oq.update(prio as int, oq[prio as int].push(tid)));
            assert forall|p: usize| p < PRIO_NUM implies (#[trigger] bit_of(self.word(), p) <==> self.queues()[p as int].len() > 0) by {
                crate::bits::lemma_with_bit(old(self).word(), prio, true, p);
            }
            assert forall|p: int, k: int| 0 <= p < PRIO_NUM && 0 <= k < self.queues()[p].len() implies #[trigger] self.queues()[p][k].prio == p by {
                if p != prio {
                    assert(self.queues()[p] == oq[p]);
                }
            }
        }
    }

    /// Takes the head of the most urgent non-empty level, clearing the
    /// level's bit when it empties; `None` when nothing is queued.
    fn pop(&mut self) -> (r: Option<TaskId>) {
        proof {
            lemma_items_len(self.queues());
            lemma_first_nonempty(self.queues());
        }
        if self.task_num == 0 {
            proof {
                assert(first_nonempty(self.queues()) == PRIO_NUM) by {
                    lemma_first_nonempty_is(self.queues(), PRIO_NUM as int);
                }
            }
            return None;
        }
        let prio = self.bitmap.get_priority();
        proof {
            let q = self.queues();
            assert forall|j: int| 0 <= j < prio implies #[trigger] q[j].len() == 0 by {
                assert(!self.bitmap.has(j as usize));
                assert(bit_of(self.word(), j as usize) <==> q[j].len() > 0);
            }
            if prio < PRIO_NUM {
                assert(self.bitmap.has(prio));
                assert(bit_of(self.word(), prio) <==> q[prio as int].len() > 0);
            }
            lemma_first_nonempty_is(q, prio as int);
        }
        if prio == PRIO_NUM {
            None
        } else {
            proof {
                lemma_items_pop(self.queues(), prio as int);
                lemma_only_levels_with_bit(self.word(), prio, false);
            }
            self.task_num -= 1;
            let ret = self.queue[prio].pop_front();
            if self.queue[prio].len() == 0 {
                self.bitmap.update(prio, false);
            }
            proof {
                let oq = old(self).queues();
                assert(oq[prio as int].drop_first() =~= oq[prio as int].subrange(1, oq[prio as int].len() as int));
                assert(self.queues() =~= oq.update(prio as int, oq[prio as int].drop_first()));
                assert forall|p: usize| p < PRIO_NUM implies (#[trigger] bit_of(self.word(), p) <==> self.queues()[p as int].len() > 0) by {
                    crate::bits::lemma_with_bit(old(self).word(), prio, false, p);
                    if p != prio {
                        assert(self.queues()[p as int] == oq[p as int]);
                    }
                }
                assert forall|p: int, k: int| 0 <= p < PRIO_NUM && 0 <= k < self.queues()[p].len() implies #[trigger] self.queues()[p][k].prio == p by {
                    if p != prio {
                        assert(self.queues()[p] == oq[p]);
                    } else {
                        assert(self.queues()[p][k] == oq[p][k + 1]);
                    }
                }
            }
            ret
        }
    }

    /// Whether no task is queued.
    fn empty(&self) -> (r: bool) {
        self.task_num == 0
    }
}

/// The bitmap reads zero exactly when nothing is queued, and the count is
/// the number of queued tasks.
pub proof fn prio_scheduler_bitmap_tracks_queue(s: PrioScheduler)
    requires
        s.wf(),
    ensures
        s.count() == s.pending().len(),
        (s.word() == 0) <==> (s.pending().len() == 0),
{
    lemma_items_len(s.queues());
    if s.pending().len() == 0 {
        assert forall|p: usize| p < PRIO_NUM implies !#[trigger] bit_of(s.word(), p) by {
            assert(s.queues()[p as int].len() == 0);
        }
        lemma_only_levels_zero(s.word());
    } else {
        if s.word() == 0 {
            let p = choose|p: int| 0 <= p < s.queues().len() && #[trigger] s.queues()[p].len() != 0;
            assert(bit_of(s.word(), p as usize) <==> s.queues()[p].len() > 0);
            crate::bits::lemma_zero_bits(p as usize);
        }
    }
}

/// Strict priority: the task `pop` hands out is at least as urgent as every
/// task left pending (its level is the lowest-numbered level in use), and
/// `pop` hands out nothing only when nothing is pending.
pub proof fn prio_scheduler_pops_most_urgent(s: PrioScheduler)
    requires
        s.wf(),
    ensures
        s.next_task() matches Some(t) ==> s.pending().count(t) > 0
            && forall|u: TaskId| #[trigger] s.pending().count(u) > 0 ==> t.prio <= u.prio,
        s.next_task() is None <==> s.pending().len() == 0,
{
    let q = s.queues();
    lemma_first_nonempty(q);
    lemma_items_len(q);
    let f = first_nonempty(q);
    if f < q.len() {
        crate::queues::lemma_items_contains(q, f, 0);
        assert(q[f][0].prio == f);
        assert forall|u: TaskId| #[trigger] s.pending().count(u) > 0 implies q[f][0].prio <= u.prio by {
            lemma_items_member(q, u);
            let (p, k) = choose|p: int, k: int| 0 <= p < q.len() && 0 <= k < q[p].len() && #[trigger] q[p][k] == u;
            assert(u.prio == p);
            if p < f {
                assert(q[p].len() == 0);
            }
        }
    } else {
        assert forall|p: int| 0 <= p < q.len() implies #[trigger] q[p].len() == 0 by {}
    }
}

/// First in, first out within a level: a task pushed at a level that
/// already holds tasks is handed out only after them, and a task pushed on
/// an idle scheduler is the next one handed out.
pub proof fn prio_scheduler_fifo(s: PrioScheduler, s2: PrioScheduler, t: TaskId)
    requires
        s.wf(),
        t.prio < PRIO_NUM,
        s2.queues() == s.queues().update(t.prio as int, s.queues()[t.prio as int].push(t)),
    ensures
        s.queues()[t.prio as int].len() > 0 ==> s2.queues()[t.prio as int][0] == s.queues()[t.prio as int][0],
        s2.queues()[t.prio as int].last() == t,
        s.pending().len() == 0 ==> s2.next_task() == Some(t),
{
    let q = s.queues();
    lemma_items_len(q);
    if s.pending().len() == 0 {
        let q2 = s2.queues();
        assert(q2[t.prio as int].len() > 0);
        assert forall|j: int| 0 <= j < t.prio implies #[trigger] q2[j].len() == 0 by {
            assert(q2[j] == q[j]);
        }
        lemma_first_nonempty_is(q2, t.prio as int);
    }
}

impl Leveled for TaskId {
    open spec fn level(&self) -> int {
        self.prio as int
    }
}

/// One call on a scheduler: a push of a task, or a pop.
pub enum SchedOp {
    Push(TaskId),
    Pop,
}

/// `after` is what `op` leaves of `before`.
pub open spec fn sched_step(before: PrioScheduler, op: SchedOp, after: PrioScheduler) -> bool {
    match op {
        SchedOp::Push(t) => t.prio < PRIO_NUM && after.pushed(before, t),
        SchedOp::Pop => after.popped(before),
    }
}

/// The tasks pushed by `ops` and not yet handed out, in push order, when
/// each pop hands out the earliest-pushed task of the most urgent level.
pub open spec fn pending_after(ops: Seq<SchedOp>) -> Seq<TaskId>
    decreases ops.len(),
{
    if ops.len() == 0 {
        Seq::empty()
    } else {
        let l = pending_after(ops.drop_last());
        match ops.last() {
            SchedOp::Push(t) => l.push(t),
            SchedOp::Pop => take_urgent(l).1,
        }
    }
}

/// Each level of `s` holds exactly the tasks of `l` at that level, in
/// their order in `l`.
pub open spec fn holds_in_order(s: PrioScheduler, l: Seq<TaskId>) -> bool {
    &&& levels_below(l, PRIO_NUM as int)
    &&& forall|p: int| 0 <= p < PRIO_NUM ==> #[trigger] s.queues()[p] == at_level(l, p)
}

/// One push or pop keeps the levels in arrival order, and a pop hands out
/// the earliest-pushed task of the most urgent level.
proof fn lemma_sched_step(s: PrioScheduler, op: SchedOp, s2: PrioScheduler, l: Seq<TaskId>)
    requires
        s.wf(),
        holds_in_order(s, l),
        sched_step(s, op, s2),
    ensures
        holds_in_order(s2, match op { SchedOp::Push(t) => l.push(t), SchedOp::Pop => take_urgent(l).1 }),
        op is Pop ==> s.next_task() == take_urgent(l).0,
{
    let q = s.queues();
    match op {
        SchedOp::Push(t) => {
            let l2 = l.push(t);
            assert forall|p: int| 0 <= p < PRIO_NUM implies #[trigger] s2.queues()[p] == at_level(l2, p) by {
                lemma_at_level_push(l, t, p);
            }
            assert forall|j: int| 0 <= j < l2.len() implies 0 <= #[trigger] l2[j].level() < PRIO_NUM by {
                if j < l.len() {
                    assert(l2[j] == l[j]);
                }
            }
        },
        SchedOp::Pop => {
            lemma_first_nonempty(q);
            if l.len() == 0 {
                assert forall|p: int| 0 <= p < q.len() implies #[trigger] q[p].len() == 0 by {
                    lemma_at_level_members(l, p);
                }
                lemma_first_nonempty_is(q, q.len() as int);
                assert(s2.queues() == q);
            } else {
                lemma_urgent_index(l);
                let i = urgent_index(l);
                let m = l[i].level();
                assert(0 <= m < PRIO_NUM);
                assert forall|p: int| 0 <= p < m implies #[trigger] q[p].len() == 0 by {
                    lemma_at_level_members(l, p);
                }
                lemma_at_level_remove_first(l, i);
                lemma_first_nonempty_is(q, m);
                let l2 = l.remove(i);
                assert forall|p: int| 0 <= p < PRIO_NUM implies #[trigger] s2.queues()[p] == at_level(l2, p) by {
                    if p != m {
                        lemma_at_level_remove_other(l, i, p);
                    }
                }
                assert forall|j: int| 0 <= j < l2.len() implies 0 <= #[trigger] l2[j].level() < PRIO_NUM by {
                    if j < i {
                        assert(l2[j] == l[j]);
                    } else {
                        assert(l2[j] == l[j + 1]);
                    }
                }
            }
        },
    }
}

/// After the first `k` calls of a run from an empty scheduler, the levels
/// hold the tasks still pending, in push order.
proof fn lemma_sched_prefix(states: Seq<PrioScheduler>, ops: Seq<SchedOp>, k: int)
    requires
        states.len() == ops.len() + 1,
        forall|n: int| 0 <= n < states.len() ==> #[trigger] states[n].wf(),
        states[0].pending().len() == 0,
        forall|n: int| 0 <= n < ops.len() ==> sched_step(#[trigger] states[n], ops[n], states[n + 1]),
        0 <= k <= ops.len(),
    ensures
        holds_in_order(states[k], pending_after(ops.take(k))),
    decreases k,
{
    if k == 0 {
        let q = states[0].queues();
        assert(states[0].wf());
        lemma_items_len(q);
        assert(ops.take(0) =~= Seq::<SchedOp>::empty());
        assert forall|p: int| 0 <= p < PRIO_NUM implies #[trigger] q[p] == at_level(Seq::<TaskId>::empty(), p) by {
            assert(q[p].len() == 0);
            assert(q[p] =~= Seq::<TaskId>::empty());
        }
    } else {
        lemma_sched_prefix(states, ops, k - 1);
        assert(ops.take(k).drop_last() =~= ops.take(k - 1));
        assert(sched_step(states[k - 1], ops[k - 1], states[k]));
        lemma_sched_step(states[k - 1], ops[k - 1], states[k], pending_after(ops.take(k - 1)));
    }
}

/// Strict priority with first in, first out within a level, over any run of
/// pushes and pops from an empty scheduler: after every prefix of the run
/// each level holds exactly the tasks pushed at it and not yet handed out,
/// in push order, and every pop hands out the earliest-pushed task of the
/// most urgent level still pending (nothing when none is).
pub proof fn prio_scheduler_history(states: Seq<PrioScheduler>, ops: Seq<SchedOp>)
    requires
        states.len() == ops.len() + 1,
        forall|n: int| 0 <= n < states.len() ==> #[trigger] states[n].wf(),
        states[0].pending().len() == 0,
        forall|n: int| 0 <= n < ops.len() ==> sched_step(#[trigger] states[n], ops[n], states[n + 1]),
    ensures
        forall|k: int| 0 <= k < states.len() ==> #[trigger] holds_in_order(states[k], pending_after(ops.take(k))),
        forall|k: int| 0 <= k < ops.len() && ops[k] is Pop
            ==> #[trigger] states[k].next_task() == take_urgent(pending_after(ops.take(k))).0,
{
    assert forall|k: int| 0 <= k < states.len() implies #[trigger] holds_in_order(states[k], pending_after(ops.take(k))) by {
        lemma_sched_prefix(states, ops, k);
    }
    assert forall|k: int| 0 <= k < ops.len() && ops[k] is Pop
        implies #[trigger] states[k].next_task() == take_urgent(pending_after(ops.take(k))).0 by {
        lemma_sched_prefix(states, ops, k);
        assert(sched_step(states[k], ops[k], states[k + 1]));
        lemma_sched_step(states[k], ops[k], states[k + 1], pending_after(ops.take(k)));
    }
}

} // verus!
