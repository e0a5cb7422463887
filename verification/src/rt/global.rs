//! The runtime's cross-thread services: picking the threads that hold the
//! globally most urgent coroutines, and delivering wake-ups.
use vstd::prelude::*;
use std::collections::BTreeSet;
use crate::bits::bit_of;
use crate::config::{PRIO_NUM, MAX_USER, MAX_THREAD};
use crate::rt::bitmap::{first_set_below, lemma_first_set_below, lemma_first_set_below_none, lemma_first_set_below_bound};
use crate::rt::task_queue::BitMaps;
use crate::rt::manager::{ManagerTable, CallbackTask};
use crate::rt::scheduler::{TaskId, Scheduler};
use crate::rt::ccmap::WRMap;
use crate::rt::user_task;
use vstd::multiset::Multiset;

verus! {

broadcast use vstd::std_specs::btree::group_btree_axioms, vstd::laws_cmp::group_laws_cmp,
    vstd::std_specs::vec::group_vec_axioms, vstd::multiset::group_multiset_axioms;

/// `1 << p` for the least set bit `p < PRIO_NUM` of `num`, or `1` when there is none.
pub open spec fn right_one_mask(num: usize) -> usize {
    let p = first_set_below(num, PRIO_NUM);
    if p < PRIO_NUM {
        1usize << p
    } else {
        1
    }
}

/// The mask of the most urgent marked level of `num`: the lowest set bit
/// among the first `PRIO_NUM` bits, or `1` when none of them is set.
pub fn get_right_one_mask(num: usize) -> (r: usize)
    ensures
        r == right_one_mask(num),
{
    let mut pos: usize = 1;
    let mut k: usize = 0;
    assert(1usize == 1usize << 0usize) by (bit_vector);
    while k < PRIO_NUM
        invariant
            k <= PRIO_NUM,
            pos == 1usize << k,
            forall|j: usize| j < k ==> !#[trigger] bit_of(num, j),
        decreases PRIO_NUM - k,
    {
        if (num & pos) != 0 {
            proof {
                lemma_first_set_below(num, PRIO_NUM as nat, k);
            }
            return pos;
        }
        assert((1usize << k) << 1usize == 1usize << ((k + 1) as usize)) by (bit_vector)
            requires k < 8usize;
        pos = pos << 1;
        k = k + 1;
    }
    proof {
        lemma_first_set_below_none(num, PRIO_NUM as nat);
    }
    1
}

/// The or of the first `n` bitmap words of row `i`.
pub open spec fn row_or(b: BitMaps, i: int, n: int) -> usize
    decreases n,
{
    if n <= 0 {
        0
    } else {
        row_or(b, i, n - 1) | b.word(i, n - 1)
    }
}

/// The or of every bitmap word of the first `m` rows.
pub open spec fn grid_or(b: BitMaps, m: int) -> usize
    decreases m,
{
    if m <= 0 {
        0
    } else {
        grid_or(b, m - 1) | row_or(b, m - 1, MAX_THREAD as int)
    }
}

/// The (space, thread) pairs whose bitmap marks the globally most urgent
/// level of the table `b`.
pub open spec fn prio_pairs(b: BitMaps) -> Set<(usize, usize)> {
    Set::new(|p: (usize, usize)| p.0 < MAX_USER && p.1 < MAX_THREAD
        && b.word(p.0 as int, p.1 as int) & right_one_mask(grid_or(b, MAX_USER as int)) != 0)
}

/// Publishes every thread's ready levels: the bitmap of thread `j` of space
/// `i` in the shared table becomes the bitmap of that thread's scheduler.
pub fn sync_bitmaps<T>(managers: &ManagerTable<T>, bitmaps: &mut BitMaps)
    requires
        managers.wf(),
        old(bitmaps).wf(),
    ensures
        final(bitmaps).wf(),
        forall|i: int, j: int| 0 <= i < MAX_USER && 0 <= j < MAX_THREAD
            ==> #[trigger] final(bitmaps).word(i, j) == managers.at(i, j).sched().word(),
{
    let mut i: usize = 0;
    while i < MAX_USER
        invariant
            managers.wf(),
            bitmaps.wf(),
            i <= MAX_USER,
            forall|a: int, b: int| 0 <= a < i && 0 <= b < MAX_THREAD
                ==> #[trigger] bitmaps.word(a, b) == managers.at(a, b).sched().word(),
        decreases MAX_USER - i,
    {
        let mut j: usize = 0;
        while j < MAX_THREAD
            invariant
                managers.wf(),
                bitmaps.wf(),
                i < MAX_USER,
                j <= MAX_THREAD,
                forall|a: int, b: int| 0 <= a < i && 0 <= b < MAX_THREAD
                    ==> #[trigger] bitmaps.word(a, b) == managers.at(a, b).sched().word(),
                forall|b: int| 0 <= b < j ==> #[trigger] bitmaps.word(i as int, b) == managers.at(i as int, b).sched().word(),
            decreases MAX_THREAD - j,
        {
            let word = managers.manager(i, j).scheduler().bitmap().get_val();
            bitmaps.set_val(i, j, word);
            j = j + 1;
        }
        i = i + 1;
    }
}

/// Recomputes the set of threads holding the globally most urgent
/// coroutines: those whose bitmap shares the lowest level marked anywhere.
pub fn update_global_bitmap(bitmaps: &BitMaps, prio_pids: &mut BTreeSet<(usize, usize)>)
    requires
        bitmaps.wf(),
    ensures
        final(prio_pids)@ == prio_pairs(*bitmaps),
{
    let mut ans: usize = 0;
    let mut i: usize = 0;
    while i < MAX_USER
        invariant
            bitmaps.wf(),
            i <= MAX_USER,
            ans == grid_or(*bitmaps, i as int),
        decreases MAX_USER - i,
    {
        let mut j: usize = 0;
        let ghost g = ans;
        assert(g | 0usize == g) by (bit_vector);
        while j < MAX_THREAD
            invariant
                bitmaps.wf(),
                i < MAX_USER,
                j <= MAX_THREAD,
                g == grid_or(*bitmaps, i as int),
                ans == g | row_or(*bitmaps, i as int, j as int),
            decreases MAX_THREAD - j,
        {
            let bitmap_val = bitmaps.get_val(i, j);
            let ghost r = row_or(*bitmaps, i as int, j as int);
            assert((g | r) | bitmap_val == g | (r | bitmap_val)) by (bit_vector);
            ans = ans | bitmap_val;
            j = j + 1;
        }
        i = i + 1;
    }
    let mask = get_right_one_mask(ans);
    prio_pids.clear();
    let mut i: usize = 0;
    while i < MAX_USER
        invariant
            bitmaps.wf(),
            i <= MAX_USER,
            mask == right_one_mask(grid_or(*bitmaps, MAX_USER as int)),
            prio_pids@ == Set::new(|p: (usize, usize)| p.0 < i && p.1 < MAX_THREAD
                && bitmaps.word(p.0 as int, p.1 as int) & mask != 0),
        decreases MAX_USER - i,
    {
        let mut j: usize = 0;
        while j < MAX_THREAD
            invariant
                bitmaps.wf(),
                i < MAX_USER,
                j <= MAX_THREAD,
                mask == right_one_mask(grid_or(*bitmaps, MAX_USER as int)),
                prio_pids@ == Set::new(|p: (usize, usize)| (p.0 < i && p.1 < MAX_THREAD || p.0 == i && p.1 < j)
                    && bitmaps.word(p.0 as int, p.1 as int) & mask != 0),
            decreases MAX_THREAD - j,
        {
            if (bitmaps.get_val(i, j) & mask) != 0 {
                prio_pids.insert((i, j));
            }
            proof {
                assert(prio_pids@ =~= Set::new(|p: (usize, usize)| (p.0 < i && p.1 < MAX_THREAD || p.0 == i && p.1 < j + 1)
                    && bitmaps.word(p.0 as int, p.1 as int) & mask != 0));
            }
            j = j + 1;
        }
        proof {
            assert(prio_pids@ =~= Set::new(|p: (usize, usize)| p.0 < i + 1 && p.1 < MAX_THREAD
                && bitmaps.word(p.0 as int, p.1 as int) & mask != 0));
        }
        i = i + 1;
    }
    proof {
        assert(prio_pids@ =~= prio_pairs(*bitmaps));
    }
}

/// Whether thread `thread_id` of space `pid` was picked by the last
/// `update_global_bitmap`; a pick is consumed by the query that sees it.
pub fn check_prio_pid(prio_pids: &mut BTreeSet<(usize, usize)>, pid: usize, thread_id: usize) -> (r: bool)
    ensures
        r == old(prio_pids)@.contains((pid, thread_id)),
        final(prio_pids)@ == old(prio_pids)@.remove((pid, thread_id)),
{
    if prio_pids.is_empty() {
        proof {
            assert(old(prio_pids)@.remove((pid, thread_id)) =~= old(prio_pids)@);
        }
        return false;
    }
    if prio_pids.contains(&(pid, thread_id)) {
        prio_pids.remove(&(pid, thread_id));
        return true;
    }
    proof {
        assert(old(prio_pids)@.remove((pid, thread_id)) =~= old(prio_pids)@);
    }
    false
}

/// Each bitmap word is contained in the or of its row.
proof fn lemma_row_or_covers(b: BitMaps, i: int, n: int, k: int)
    requires
        0 <= k < n,
    ensures
        b.word(i, k) | row_or(b, i, n) == row_or(b, i, n),
    decreases n,
{
    let w = b.word(i, k);
    let r = row_or(b, i, n - 1);
    let last = b.word(i, n - 1);
    if k == n - 1 {
        assert(w | (r | w) == r | w) by (bit_vector);
    } else {
        lemma_row_or_covers(b, i, n - 1, k);
        assert(w | r == r ==> w | (r | last) == r | last) by (bit_vector);
    }
}

/// Each row's or is contained in the or of the rows up to `m`.
proof fn lemma_grid_or_covers(b: BitMaps, m: int, i: int)
    requires
        0 <= i < m,
    ensures
        row_or(b, i, MAX_THREAD as int) | grid_or(b, m) == grid_or(b, m),
    decreases m,
{
    let w = row_or(b, i, MAX_THREAD as int);
    let g = grid_or(b, m - 1);
    let last = row_or(b, m - 1, MAX_THREAD as int);
    if i == m - 1 {
        assert(w | (g | w) == g | w) by (bit_vector);
    } else {
        lemma_grid_or_covers(b, m - 1, i);
        assert(w | g == g ==> w | (g | last) == g | last) by (bit_vector);
    }
}

/// The threads `update_global_bitmap` picks are exactly those whose bitmap
/// marks the most urgent level that any thread marks (none when no thread
/// marks a level).
pub proof fn picked_threads_hold_most_urgent_level(b: BitMaps, i: usize, j: usize)
    requires
        b.wf(),
        i < MAX_USER,
        j < MAX_THREAD,
    ensures
        prio_pairs(b).contains((i, j)) <==> ({
            let p = first_set_below(grid_or(b, MAX_USER as int), PRIO_NUM);
            p < PRIO_NUM && bit_of(b.word(i as int, j as int), p)
        }),
{
    let g = grid_or(b, MAX_USER as int);
    let p = first_set_below(g, PRIO_NUM);
    let w = b.word(i as int, j as int);
    lemma_first_set_below_bound(g, PRIO_NUM as nat);
    if p >= PRIO_NUM {
        if w & 1usize != 0 {
            lemma_row_or_covers(b, i as int, MAX_THREAD as int, j as int);
            lemma_grid_or_covers(b, MAX_USER as int, i as int);
            let r = row_or(b, i as int, MAX_THREAD as int);
            assert(w | r == r && r | g == g && w & 1usize != 0 ==> g & (1usize << 0usize) != 0usize) by (bit_vector);
            lemma_first_set_below(g, PRIO_NUM as nat, 0);
        }
    }
}

/// Whether the wake-up `c` can be delivered in `m`: its task still has a
/// recorded priority in its thread's manager.
pub open spec fn deliverable<T>(m: ManagerTable<T>, c: CallbackTask) -> bool {
    m.at(c.pid as int, c.thread_id as int).prios().contains_key(c.tid)
}

/// Every wake-up of `cbs` targets a thread inside the table.
pub open spec fn targets_in_table(cbs: Seq<CallbackTask>) -> bool {
    forall|k: int| 0 <= k < cbs.len() ==> (#[trigger] cbs[k]).pid < MAX_USER && cbs[k].thread_id < MAX_THREAD
}

/// The tasks that delivering `cbs` in `m` puts back on the scheduler of
/// thread `j` of space `i`.
pub open spec fn woken<T>(cbs: Seq<CallbackTask>, m: ManagerTable<T>, i: int, j: int) -> Multiset<TaskId>
    decreases cbs.len(),
{
    if cbs.len() == 0 {
        Multiset::empty()
    } else {
        let c = cbs.last();
        let rest = woken(cbs.drop_last(), m, i, j);
        if c.pid == i && c.thread_id == j && deliverable(m, c) {
            rest.insert(TaskId { tid: c.tid, prio: m.at(i, j).prios()[c.tid] })
        } else {
            rest
        }
    }
}

/// The wake-ups of `cbs` that stay queued after a delivery round in `m`:
/// the valid ones that could not be delivered, in order.
pub open spec fn undelivered<T>(cbs: Seq<CallbackTask>, m: ManagerTable<T>) -> Seq<CallbackTask>
    decreases cbs.len(),
{
    if cbs.len() == 0 {
        Seq::empty()
    } else {
        let c = cbs.last();
        let rest = undelivered(cbs.drop_last(), m);
        if c.is_valid && !deliverable(m, c) {
            rest.push(c)
        } else {
            rest
        }
    }
}

proof fn lemma_woken_len<T>(cbs: Seq<CallbackTask>, m: ManagerTable<T>, i: int, j: int)
    ensures
        woken(cbs, m, i, j).len() <= cbs.len(),
    decreases cbs.len(),
{
    if cbs.len() > 0 {
        lemma_woken_len(cbs.drop_last(), m, i, j);
    }
}

/// Wakes task `tid` of thread `thread_id` of space `pid`: `true` when its
/// manager put it back on the scheduler; otherwise the wake-up is queued
/// in `callbacks` for a later `update_callback` and `false` is returned.
pub fn add_callback<T>(managers: &mut ManagerTable<T>, callbacks: &mut Vec<CallbackTask>, pid: usize, thread_id: usize, tid: usize) -> (r: bool)
    requires
        old(managers).wf(),
        pid < MAX_USER,
        thread_id < MAX_THREAD,
        old(managers).at(pid as int, thread_id as int).sched().pending().len() < usize::MAX,
    ensures
        final(managers).wf(),
        r == old(managers).at(pid as int, thread_id as int).prios().contains_key(tid),
        r ==> final(managers).at(pid as int, thread_id as int).sched().pending()
            == old(managers).at(pid as int, thread_id as int).sched().pending().insert(
            TaskId { tid, prio: old(managers).at(pid as int, thread_id as int).prios()[tid] },
        ),
        r ==> final(managers).at(pid as int, thread_id as int).sched().pushed(old(managers).at(pid as int, thread_id as int).sched(), TaskId { tid, prio: old(managers).at(pid as int, thread_id as int).prios()[tid] }),
        !r ==> final(managers).at(pid as int, thread_id as int).sched() == old(managers).at(pid as int, thread_id as int).sched(),
        final(managers).at(pid as int, thread_id as int).tasks_view() == old(managers).at(pid as int, thread_id as int).tasks_view(),
        final(managers).at(pid as int, thread_id as int).prios() == old(managers).at(pid as int, thread_id as int).prios(),
        forall|i: int, j: int| 0 <= i < MAX_USER && 0 <= j < MAX_THREAD && (i != pid || j != thread_id)
            ==> #[trigger] final(managers).at(i, j) == old(managers).at(i, j),
        final(callbacks)@ == (if r {
            old(callbacks)@
        } else {
            old(callbacks)@.push(CallbackTask { pid, thread_id, tid, is_valid: true })
        }),
{
    let res = managers.re_back(pid, thread_id, user_task::TaskId::get_tid_by_usize(tid).get_val());
    if !res {
        return defer_callback(callbacks, pid, thread_id, tid);
    }
    true
}

/// Queues the wake-up of task `tid` of thread `thread_id` of space `pid`
/// for a later `update_callback`, as a valid entry at the end of
/// `callbacks`, and answers `false`: the task was not put back now. This is
/// the answer when the task is not known yet, and when the runtime is busy
/// and cannot be entered.
pub fn defer_callback(callbacks: &mut Vec<CallbackTask>, pid: usize, thread_id: usize, tid: usize) -> (r: bool)
    ensures
        !r,
        final(callbacks)@ == old(callbacks)@.push(CallbackTask { pid, thread_id, tid, is_valid: true }),
{
    callbacks.push(CallbackTask { pid, thread_id, tid, is_valid: true });
    false
}

/// Retries every queued wake-up: each one whose task can now be put back
/// on its scheduler is delivered and dropped; the rest stay, in order.
pub fn update_callback<T>(managers: &mut ManagerTable<T>, callbacks: &mut Vec<CallbackTask>)
    requires
        old(managers).wf(),
        targets_in_table(old(callbacks)@),
        forall|i: int, j: int| 0 <= i < MAX_USER && 0 <= j < MAX_THREAD ==>
            #[trigger] old(managers).at(i, j).sched().pending().len() + old(callbacks)@.len() < usize::MAX,
    ensures
        final(managers).wf(),
        final(callbacks)@ == undelivered(old(callbacks)@, *old(managers)),
        forall|i: int, j: int| 0 <= i < MAX_USER && 0 <= j < MAX_THREAD ==> {
            &&& (#[trigger] final(managers).at(i, j)).sched().pending()
                == old(managers).at(i, j).sched().pending().add(woken(old(callbacks)@, *old(managers), i, j))
            &&& final(managers).at(i, j).tasks_view() == old(managers).at(i, j).tasks_view()
            &&& final(managers).at(i, j).prios() == old(managers).at(i, j).prios()
        },
        forall|c: CallbackTask| #[trigger] final(callbacks)@.to_multiset().count(c)
            == if c.is_valid && !old(managers).at(c.pid as int, c.thread_id as int).prios().contains_key(c.tid) {
                old(callbacks)@.to_multiset().count(c)
            } else {
                0
            },
        forall|i: usize, j: usize, x: TaskId| i < MAX_USER && j < MAX_THREAD ==>
            #[trigger] final(managers).at(i as int, j as int).sched().pending().count(x)
            == old(managers).at(i as int, j as int).sched().pending().count(x) + wake_ups_of(old(callbacks)@, *old(managers), i, j, x),
{
    let ghost cbs = callbacks@;
    let ghost m0 = *managers;
    let len = callbacks.len();
    let mut kept: Vec<CallbackTask> = Vec::new();
    let mut index: usize = 0;
    while index < len
        invariant
            len == cbs.len(),
            index <= len,
            callbacks@ == cbs,
            targets_in_table(cbs),
            managers.wf(),
            m0.wf(),
            kept@ == undelivered(cbs.take(index as int), m0),
            forall|i: int, j: int| 0 <= i < MAX_USER && 0 <= j < MAX_THREAD ==>
                #[trigger] m0.at(i, j).sched().pending().len() + cbs.len() < usize::MAX,
            forall|i: int, j: int| 0 <= i < MAX_USER && 0 <= j < MAX_THREAD ==> {
                &&& (#[trigger] managers.at(i, j)).sched().pending()
                    == m0.at(i, j).sched().pending().add(woken(cbs.take(index as int), m0, i, j))
                &&& managers.at(i, j).tasks_view() == m0.at(i, j).tasks_view()
                &&& managers.at(i, j).prios() == m0.at(i, j).prios()
            },
        decreases len - index,
    {
        let callback_task = callbacks[index];
        let ghost pre = *managers;
        let ghost k = index as int;
        proof {
            assert(cbs.take(k + 1).drop_last() =~= cbs.take(k));
            assert(cbs.take(k + 1).last() == cbs[k]);
            assert(callback_task.pid < MAX_USER && callback_task.thread_id < MAX_THREAD);
            lemma_woken_len(cbs.take(k), m0, callback_task.pid as int, callback_task.thread_id as int);
            assert(pre.at(callback_task.pid as int, callback_task.thread_id as int).sched().pending().len()
                == m0.at(callback_task.pid as int, callback_task.thread_id as int).sched().pending().len()
                + woken(cbs.take(k), m0, callback_task.pid as int, callback_task.thread_id as int).len());
        }
        let res = managers.re_back(callback_task.pid, callback_task.thread_id,
            user_task::TaskId::get_tid_by_usize(callback_task.tid).get_val());
        if !res && callback_task.is_valid {
            kept.push(callback_task);
        }
        proof {
            let c = callback_task;
            assert forall|i: int, j: int| 0 <= i < MAX_USER && 0 <= j < MAX_THREAD implies {
                &&& (#[trigger] managers.at(i, j)).sched().pending()
                    == m0.at(i, j).sched().pending().add(woken(cbs.take(k + 1), m0, i, j))
                &&& managers.at(i, j).tasks_view() == m0.at(i, j).tasks_view()
                &&& managers.at(i, j).prios() == m0.at(i, j).prios()
            } by {
                let w = woken(cbs.take(k), m0, i, j);
                let base = m0.at(i, j).sched().pending();
                if i == c.pid && j == c.thread_id {
                    if res {
                        let x = TaskId { tid: c.tid, prio: m0.at(i, j).prios()[c.tid] };
                        assert(woken(cbs.take(k + 1), m0, i, j) == w.insert(x));
                        assert(managers.at(i, j).sched().pending() =~= base.add(w.insert(x)));
                    } else {
                        assert(woken(cbs.take(k + 1), m0, i, j) == w);
                    }
                } else {
                    assert(managers.at(i, j) == pre.at(i, j));
                    assert(woken(cbs.take(k + 1), m0, i, j) == w);
                }
            }
        }
        index = index + 1;
    }
    proof {
        assert(cbs.take(len as int) =~= cbs);
    }
    *callbacks = kept;
    proof {
        assert forall|c: CallbackTask| #[trigger] callbacks@.to_multiset().count(c)
            == if c.is_valid && !m0.at(c.pid as int, c.thread_id as int).prios().contains_key(c.tid) {
                cbs.to_multiset().count(c)
            } else {
                0
            } by {
            update_callback_keeps_only_unknown(cbs, m0, c);
        }
        assert forall|i: usize, j: usize, x: TaskId| i < MAX_USER && j < MAX_THREAD implies
            #[trigger] managers.at(i as int, j as int).sched().pending().count(x)
            == m0.at(i as int, j as int).sched().pending().count(x) + wake_ups_of(cbs, m0, i, j, x) by {
            update_callback_wakes_every_known(cbs, m0, i, j, x);
        }
    }
}

/// How many times `update_callback` over the wake-ups `cbs` puts `x` back
/// on the scheduler of thread `j` of space `i` of `m`: once per queued
/// wake-up of task `x.tid` of that thread, valid or not, when that thread
/// knows the task and `x.prio` is its priority; never otherwise.
pub open spec fn wake_ups_of<T>(cbs: Seq<CallbackTask>, m: ManagerTable<T>, i: usize, j: usize, x: TaskId) -> nat {
    if m.at(i as int, j as int).prios().contains_key(x.tid) && m.at(i as int, j as int).prios()[x.tid] == x.prio {
        cbs.to_multiset().count(CallbackTask { pid: i, thread_id: j, tid: x.tid, is_valid: true })
            + cbs.to_multiset().count(CallbackTask { pid: i, thread_id: j, tid: x.tid, is_valid: false })
    } else {
        0
    }
}

/// Every queued wake-up of a task its thread knows is delivered, whatever
/// its place among the others: the tasks a delivery round puts back on a
/// thread's scheduler are one per wake-up of a known task of that thread.
pub proof fn update_callback_wakes_every_known<T>(cbs: Seq<CallbackTask>, m: ManagerTable<T>, i: usize, j: usize, x: TaskId)
    ensures
        woken(cbs, m, i as int, j as int).count(x) == wake_ups_of(cbs, m, i, j, x),
    decreases cbs.len(),
{
    broadcast use vstd::seq_lib::group_to_multiset_ensures;
    if cbs.len() > 0 {
        let d = cbs.drop_last();
        update_callback_wakes_every_known(d, m, i, j, x);
        assert(d.push(cbs.last()) =~= cbs);
        assert(cbs.to_multiset() =~= d.to_multiset().insert(cbs.last()));
    } else {
        vstd::multiset::lemma_multiset_empty_len(cbs.to_multiset());
    }
}

/// A delivery round keeps exactly the valid wake-ups of tasks their thread
/// does not know, each as often as it was queued; every other wake-up leaves.
pub proof fn update_callback_keeps_only_unknown<T>(cbs: Seq<CallbackTask>, m: ManagerTable<T>, c: CallbackTask)
    ensures
        undelivered(cbs, m).to_multiset().count(c)
            == if c.is_valid && !m.at(c.pid as int, c.thread_id as int).prios().contains_key(c.tid) {
                cbs.to_multiset().count(c)
            } else {
                0
            },
    decreases cbs.len(),
{
    broadcast use vstd::seq_lib::group_to_multiset_ensures;
    if cbs.len() > 0 {
        let d = cbs.drop_last();
        update_callback_keeps_only_unknown(d, m, c);
        assert(d.push(cbs.last()) =~= cbs);
        assert(cbs.to_multiset() =~= d.to_multiset().insert(cbs.last()));
        let u = undelivered(d, m);
        if cbs.last().is_valid && !deliverable(m, cbs.last()) {
            assert(undelivered(cbs, m).to_multiset() =~= u.to_multiset().insert(cbs.last()));
        }
    } else {
        vstd::multiset::lemma_multiset_empty_len(cbs.to_multiset());
        vstd::multiset::lemma_multiset_empty_len(undelivered(cbs, m).to_multiset());
    }
}

/// A write finished for `key`: the kernel coroutine registered for that key
/// (if any) is woken in the kernel's own manager (space 0, thread 0), and the
/// registration is consumed.
pub fn wake_kernel_tid<T>(wrmap: &mut WRMap, managers: &mut ManagerTable<T>, callbacks: &mut Vec<CallbackTask>, pid: usize, key: usize)
    requires
        old(managers).wf(),
        old(managers).at(0, 0).sched().pending().len() < usize::MAX,
    ensures
        final(wrmap)@ == old(wrmap)@.remove(key),
        final(managers).wf(),
        old(wrmap)@.contains_key(key) ==> {
            let tid = old(wrmap)@[key];
            let delivered = old(managers).at(0, 0).prios().contains_key(tid);
            &&& delivered ==> final(managers).at(0, 0).sched().pending() == old(managers).at(0, 0).sched().pending().insert(
                TaskId { tid, prio: old(managers).at(0, 0).prios()[tid] })
            &&& delivered ==> final(managers).at(0, 0).sched().pushed(old(managers).at(0, 0).sched(),
                TaskId { tid, prio: old(managers).at(0, 0).prios()[tid] })
            &&& !delivered ==> final(managers).at(0, 0).sched() == old(managers).at(0, 0).sched()
            &&& final(callbacks)@ == (if delivered {
                old(callbacks)@
            } else {
                old(callbacks)@.push(CallbackTask { pid: 0, thread_id: 0, tid, is_valid: true })
            })
        },
        !old(wrmap)@.contains_key(key) ==> final(managers).at(0, 0).sched() == old(managers).at(0, 0).sched()
            && final(callbacks)@ == old(callbacks)@,
        final(managers).at(0, 0).tasks_view() == old(managers).at(0, 0).tasks_view(),
        final(managers).at(0, 0).prios() == old(managers).at(0, 0).prios(),
        forall|i: int, j: int| 0 <= i < MAX_USER && 0 <= j < MAX_THREAD && (i != 0 || j != 0)
            ==> #[trigger] final(managers).at(i, j) == old(managers).at(i, j),
{
    let kernel_tid = wrmap.get_rid(key);
    if kernel_tid.is_some() {
        add_callback(managers, callbacks, 0, 0, kernel_tid.unwrap());
    }
}

/// Registers kernel coroutine `kernel_tid` as the one to wake when the write
/// for `key` finishes.
pub fn wrmap_register(wrmap: &mut WRMap, key: usize, kernel_tid: usize)
    ensures
        final(wrmap)@ == old(wrmap)@.insert(key, kernel_tid),
{
    wrmap.register(key, kernel_tid);
}


/// A thread whose task queue holds a task at the most urgent level marked by
/// any thread is among those `update_global_bitmap` picks.
pub proof fn queue_at_most_urgent_level_is_picked(b: BitMaps, q: crate::rt::task_queue::TaskQueue)
    requires
        b.wf(),
        q.wf(),
        q.owner_pid() < MAX_USER,
        q.owner_thread() < MAX_THREAD,
        q.synced(&b),
    ensures
        ({
            let p = first_set_below(grid_or(b, MAX_USER as int), PRIO_NUM);
            p < PRIO_NUM && q.queues()[p as int].len() > 0 ==> prio_pairs(b).contains((q.owner_pid(), q.owner_thread()))
        }),
{
    let p = first_set_below(grid_or(b, MAX_USER as int), PRIO_NUM);
    if p < PRIO_NUM && q.queues()[p as int].len() > 0 {
        assert(crate::rt::bitmap::BitMap(b.word(q.owner_pid() as int, q.owner_thread() as int)).has(p));
        picked_threads_hold_most_urgent_level(b, q.owner_pid(), q.owner_thread());
    }
}

} // verus!
