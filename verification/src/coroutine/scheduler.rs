use vstd::prelude::*;
use vstd::multiset::Multiset;
use std::collections::VecDeque;
use crate::config::{PRIO_NUM, CAP};
use crate::counter::TaskCounter;
use crate::queues::{items, first_nonempty, lemma_items_push, lemma_items_pop, lemma_items_len,
    lemma_first_nonempty, lemma_first_nonempty_is};

verus! {

broadcast use vstd::std_specs::vecdeque::group_vec_dequeue_axioms, vstd::std_specs::vec::group_vec_axioms;

/// A user coroutine: its id and its priority level.
#[derive(PartialEq, Eq, Structural, Debug, Clone, Copy, Hash, Ord, PartialOrd)]
pub struct TaskId {
    pub tid: usize,
    pub prio: usize,
}

impl TaskId {
    /// Draws the next task id from `counter`; ids from `PRIO_NUM * CAP` on
    /// are refused ("too many tasks"), so the counter must be below that.
    pub fn generate(counter: &mut TaskCounter) -> (id: usize)
        requires
            old(counter).value() < PRIO_NUM * CAP,
        ensures
            id == old(counter).value(),
            final(counter).value() == old(counter).value() + 1,
    {
        counter.fetch_inc()
    }
}

/// What the user coroutine loop asks of a scheduler: `pending` is every
/// queued task, `next_task` what `pop` hands out next, `high` the level
/// the scheduler currently serves.
pub trait Scheduler: Sized + 'static {
    /// The scheduler's internal consistency.
    spec fn wf(&self) -> bool;

    /// Every queued task, with multiplicity.
    spec fn pending(&self) -> Multiset<TaskId>;

    /// The task the next `pop` hands out, if any.
    spec fn next_task(&self) -> Option<TaskId>;

    /// The level the scheduler currently serves.
    spec fn high(&self) -> usize;

    /// `self` is the state that pushing `tid` onto `before` leaves.
    spec fn pushed(&self, before: Self, tid: TaskId) -> bool;

    /// `self` is the state that a pop of `before` leaves.
    spec fn popped(&self, before: Self) -> bool;

    /// Queues `tid` (new or resumed).
    fn push(&mut self, tid: TaskId)
        requires
            old(self).wf(),
            tid.prio < PRIO_NUM,
            old(self).pending().len() < usize::MAX,
        ensures
            final(self).wf(),
            final(self).pending() == old(self).pending().insert(tid),
            final(self).pushed(*old(self), tid),
            final(self).high() >= old(self).high(),
            final(self).high() >= tid.prio,
            final(self).high() == old(self).high() || final(self).high() == tid.prio,
    ;

    /// Picks the task to run next and takes it off the queues.
    fn pop(&mut self) -> (r: Option<TaskId>)
        requires
            old(self).wf(),
        ensures
            final(self).wf(),
            r == old(self).next_task(),
            match r {
                Some(t) => old(self).pending().count(t) > 0 && final(self).pending() == old(
                    self,
                ).pending().remove(t),
                None => final(self).pending() == old(self).pending(),
            },
            final(self).popped(*old(self)),
    ;

    /// Whether nothing is queued.
    fn empty(&self) -> (r: bool)
        requires
            self.wf(),
        ensures
            r == (self.pending().len() == 0),
    ;

    /// The level currently served.
    fn high_prio(&self) -> (r: usize)
        ensures
            r == self.high(),
    ;
}

/// The user-side scheduler: one FIFO queue per level and a served level.
/// Pushing a higher level raises the served level; popping serves only that
/// level, and when it is empty the served level drops to the least
/// non-empty level (0 when all are empty) and nothing is handed out.
pub struct PrioScheduler {
    queue: Vec<VecDeque<TaskId>>,
    high_prio: usize,
    task_num: usize,
}

impl PrioScheduler {
    /// The queues, level by level.
    pub closed spec fn queues(&self) -> Seq<Seq<TaskId>> {
        Seq::new(self.queue@.len(), |p: int| self.queue@[p]@)
    }

    /// The task count.
    pub closed spec fn count(&self) -> usize {
        self.task_num
    }

    /// `PRIO_NUM` levels, a served level among them, every task on its own
    /// level, and the count the number of queued tasks.
    pub open spec fn inv(&self) -> bool {
        &&& self.queues().len() == PRIO_NUM
        &&& self.high() < PRIO_NUM
        &&& forall|p: int, k: int| 0 <= p < PRIO_NUM && 0 <= k < self.queues()[p].len() ==> #[trigger] self.queues()[p][k].prio == p
        &&& self.count() == items(self.queues()).len()
    }

    /// An empty scheduler serving level 0.
    pub fn new() -> (r: Self)
        ensures
            r.wf(),
            r.queues().len() == PRIO_NUM,
            forall|p: int| 0 <= p < PRIO_NUM ==> #[trigger] r.queues()[p].len() == 0,
            r.pending().len() == 0,
            r.high() == 0,
            r.count() == 0,
    {
        let mut queue: Vec<VecDeque<TaskId>> = Vec::new();
        let mut i: usize = 0;
        while i < PRIO_NUM
            invariant
                i <= PRIO_NUM,
                queue@.len() == i,
                forall|p: int| 0 <= p < i ==> #[trigger] queue@[p]@.len() == 0,
            decreases PRIO_NUM - i,
        {
            queue.push(VecDeque::new());
            i = i + 1;
        }
        let r = PrioScheduler { queue, high_prio: 0, task_num: 0 };
        proof {
            lemma_items_len(r.queues());
        }
        r
    }
}

impl Scheduler for PrioScheduler {
    open spec fn wf(&self) -> bool {
        self.inv()
    }

    open spec fn pending(&self) -> Multiset<TaskId> {
        items(self.queues())
    }

    open spec fn next_task(&self) -> Option<TaskId> {
        let q = self.queues()[self.high() as int];
        if q.len() > 0 {
            Some(q[0])
        } else {
            None
        }
    }

    closed spec fn high(&self) -> usize {
        self.high_prio
    }

    /// `tid` appended to its level, a level above the served one becomes
    /// served, one more task.
    open spec fn pushed(&self, before: Self, tid: TaskId) -> bool {
        &&& self.queues() == before.queues().update(tid.prio as int, before.queues()[tid.prio as int].push(tid))
        &&& self.high() == (if tid.prio > before.high() { tid.prio } else { before.high() })
        &&& self.count() == before.count() + 1
    }

    /// With the served level non-empty, its head taken off and one task
    /// less; otherwise the queues unchanged and the served level moved to the
    /// least non-empty level (0 when all are empty).
    open spec fn popped(&self, before: Self) -> bool {
        let q = before.queues();
        let h = before.high() as int;
        if q[h].len() > 0 {
            &&& self.queues() == q.update(h, q[h].drop_first())
            &&& self.high() == before.high()
            &&& self.count() == before.count() - 1
        } else {
            let f = first_nonempty(q);
            &&& self.queues() == q
            &&& self.high() == (if f < PRIO_NUM { f as usize } else { 0 })
            &&& self.count() == before.count()
        }
    }

    /// Appends `tid` to its level; a level above the served one becomes served.
    fn push(&mut self, tid: TaskId) {
        let prio = tid.prio;
        proof {
            lemma_items_push(self.queues(), prio as int, tid);
        }
        self.queue[prio].push_back(tid);
        self.task_num += 1;
        if prio > self.high_prio {
            self.high_prio = prio;
        }
        proof {
            let oq = old(self).queues();
            assert(self.queues() =~= oq.update(prio as int, oq[prio as int].push(tid)));
            assert forall|p: int, k: int| 0 <= p < PRIO_NUM && 0 <= k < self.queues()[p].len() implies #[trigger] self.queues()[p][k].prio == p by {
                if p != prio {
                    assert(self.queues()[p] == oq[p]);
                }
            }
        }
    }

    /// Hands out the head of the served level; when it is empty, moves the
    /// served level to the least non-empty level (0 when all are empty) and
    /// hands out nothing.
    fn pop(&mut self) -> (r: Option<TaskId>)
    {
        if self.queue[self.high_prio].len() == 0 {
            self.high_prio = 0;
            let mut i: usize = 0;
            while i < PRIO_NUM
                invariant
                    i <= PRIO_NUM,
                    self.queue == old(self).queue,
                    self.task_num == old(self).task_num,
                    self.high_prio < PRIO_NUM,
                    self.queue@.len() == PRIO_NUM,
                    ({
                        let q = self.queues();
                        &&& (exists|p: int| PRIO_NUM - i <= p < PRIO_NUM && #[trigger] q[p].len() > 0)
                            ==> (PRIO_NUM - i <= self.high_prio && q[self.high_prio as int].len() > 0
                                && forall|p: int| PRIO_NUM - i <= p < self.high_prio ==> #[trigger] q[p].len() == 0)
                        &&& !(exists|p: int| PRIO_NUM - i <= p < PRIO_NUM && #[trigger] q[p].len() > 0) ==> self.high_prio == 0
                    }),
                decreases PRIO_NUM - i,
            {
                let idx = PRIO_NUM - i - 1;
                let ghost h0 = self.high_prio;
                if self.queue[idx].len() != 0 {
                    self.high_prio = idx;
                }
                proof {
                    let q = self.queues();
                    assert(q[idx as int] == self.queue@[idx as int]@);
                    if q[idx as int].len() == 0 {
                        if exists|p: int| idx <= p < PRIO_NUM && #[trigger] q[p].len() > 0 {
                            let w = choose|p: int| idx <= p < PRIO_NUM && #[trigger] q[p].len() > 0;
                            assert(PRIO_NUM - i <= w < PRIO_NUM && q[w].len() > 0);
                        } else {
                            if exists|p: int| PRIO_NUM - i <= p < PRIO_NUM && #[trigger] q[p].len() > 0 {
                                let w = choose|p: int| PRIO_NUM - i <= p < PRIO_NUM && #[trigger] q[p].len() > 0;
                                assert(idx <= w < PRIO_NUM && q[w].len() > 0);
                            }
                        }
                    } else {
                        assert(idx <= idx < PRIO_NUM && q[idx as int].len() > 0);
                    }
                }
                i = i + 1;
            }
            proof {
                let q = self.queues();
                lemma_first_nonempty(q);
                if exists|p: int| 0 <= p < PRIO_NUM && #[trigger] q[p].len() > 0 {
                    lemma_first_nonempty_is(q, self.high_prio as int);
                } else {
                    lemma_first_nonempty_is(q, PRIO_NUM as int);
                }
            }
            return None;
        }
        proof {
            lemma_items_pop(self.queues(), self.high_prio as int);
        }
        self.task_num -= 1;
        let hp = self.high_prio;
        let ret = self.queue[hp].pop_front();
        proof {
            let oq = old(self).queues();
            assert(oq[hp as int].drop_first() =~= oq[hp as int].subrange(1, oq[hp as int].len() as int));
            assert(self.queues() =~= oq.update(hp as int, oq[hp as int].drop_first()));
            assert forall|p: int, k: int| 0 <= p < PRIO_NUM && 0 <= k < self.queues()[p].len() implies #[trigger] self.queues()[p][k].prio == p by {
                if p != hp {
                    assert(self.queues()[p] == oq[p]);
                } else {
                    assert(self.queues()[p][k] == oq[p][k + 1]);
                }
            }
        }
        ret
    }

    /// Whether no task is queued.
    fn empty(&self) -> (r: bool) {
        self.task_num == 0
    }

    /// The level currently served.
    fn high_prio(&self) -> (r: usize) {
        self.high_prio
    }
}


/// An idle pop is followed by a productive one: when `pop` hands out nothing
/// although tasks are pending, it moves the served level to a non-empty
/// level, so the next `pop` hands out the head of that level.
pub proof fn idle_pop_then_progress(s: PrioScheduler, s2: PrioScheduler)
    requires
        s.wf(),
        s.next_task() is None,
        s.pending().len() > 0,
        s2.queues() == s.queues(),
        s2.high() == (if first_nonempty(s.queues()) < PRIO_NUM { first_nonempty(s.queues()) as usize } else { 0 }),
    ensures
        s2.next_task() == Some(s.queues()[first_nonempty(s.queues())][0]),
{
    let q = s.queues();
    lemma_items_len(q);
    lemma_first_nonempty(q);
    let f = first_nonempty(q);
    if f >= PRIO_NUM {
        assert forall|p: int| 0 <= p < q.len() implies #[trigger] q[p].len() == 0 by {}
    }
}

/// Pushing a task of a higher level than the served one makes its level
/// the served one, so a pop right after hands out a task of that level.
pub proof fn push_raises_served_level(s: PrioScheduler, s2: PrioScheduler, t: TaskId)
    requires
        s.wf(),
        t.prio < PRIO_NUM,
        t.prio > s.high(),
        s2.queues() == s.queues().update(t.prio as int, s.queues()[t.prio as int].push(t)),
        s2.high() == t.prio,
    ensures
        s2.next_task() matches Some(u) && u.prio == t.prio,
{
    let q2 = s2.queues();
    assert(q2[t.prio as int].len() > 0);
    if s.queues()[t.prio as int].len() > 0 {
        assert(s.queues()[t.prio as int][0].prio == t.prio);
    }
}

/// A push serves the higher of the served level and the pushed task's
/// level: the served level after `push(t)` is the maximum of the one before
/// and `t.prio`.
pub proof fn push_serves_max_level(s: PrioScheduler, s2: PrioScheduler, t: TaskId)
    requires
        s2.pushed(s, t),
    ensures
        s2.high() >= s.high(),
        s2.high() >= t.prio,
        s2.high() == s.high() || s2.high() == t.prio,
{
}

} // verus!
