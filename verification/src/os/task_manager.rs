use vstd::prelude::*;
use std::collections::{BTreeMap, VecDeque};

verus! {

broadcast use vstd::std_specs::vecdeque::group_vec_dequeue_axioms, vstd::std_specs::vec::group_vec_axioms,
    vstd::std_specs::btree::group_btree_axioms, vstd::laws_cmp::group_laws_cmp;

/// A live process as the scheduler sees it: the priority it currently
/// publishes and its ready threads (the last one runs first).
pub struct Process<T> {
    pub prio: usize,
    pub ready_tasks: Vec<T>,
}

/// The live processes by id.
pub struct ProcessTable<T> {
    map: BTreeMap<usize, Process<T>>,
}

impl<T> ProcessTable<T> {
    /// Each live process's priority and ready threads, by id.
    pub closed spec fn view_table(&self) -> Map<usize, (usize, Seq<T>)> {
        Map::new(|k: usize| self.map@.contains_key(k), |k: usize| (self.map@[k].prio, self.map@[k].ready_tasks@))
    }

    /// No live process.
    pub fn new() -> (r: Self)
        ensures
            r.view_table() == Map::<usize, (usize, Seq<T>)>::empty(),
    {
        let r = ProcessTable { map: BTreeMap::new() };
        proof {
            assert(r.view_table() =~= Map::<usize, (usize, Seq<T>)>::empty());
        }
        r
    }

    /// Registers `process` as the live process `pid` (replacing any earlier one).
    pub fn insert_into_pid2process(&mut self, pid: usize, process: Process<T>)
        ensures
            final(self).view_table() == old(self).view_table().insert(pid, (process.prio, process.ready_tasks@)),
    {
        let ghost v = (process.prio, process.ready_tasks@);
        self.map.insert(pid, process);
        proof {
            assert(self.view_table() =~= old(self).view_table().insert(pid, v));
        }
    }

    /// The live process `pid`, if there is one.
    pub fn pid2process(&self, pid: usize) -> (r: Option<&Process<T>>)
        ensures
            (r is Some) == self.view_table().contains_key(pid),
            r matches Some(p) ==> (p.prio, p.ready_tasks@) == self.view_table()[pid],
    {
        self.map.get(&pid)
    }

    /// Forgets the live process `pid`, which must be registered.
    pub fn remove_from_pid2process(&mut self, pid: usize)
        requires
            old(self).view_table().contains_key(pid),
        ensures
            final(self).view_table() == old(self).view_table().remove(pid),
    {
        self.map.remove(&pid);
        proof {
            assert(self.view_table() =~= old(self).view_table().remove(pid));
        }
    }

    /// Records the priority process `pid` now publishes (nothing happens for
    /// an unknown process).
    pub fn set_prio(&mut self, pid: usize, prio: usize)
        ensures
            old(self).view_table().contains_key(pid) ==> final(self).view_table()
                == old(self).view_table().insert(pid, (prio, old(self).view_table()[pid].1)),
            !old(self).view_table().contains_key(pid) ==> final(self).view_table() == old(self).view_table(),
    {
        match self.map.remove(&pid) {
            Some(mut process) => {
                process.prio = prio;
                self.map.insert(pid, process);
                proof {
                    assert(self.view_table() =~= old(self).view_table().insert(pid, (prio, old(self).view_table()[pid].1)));
                }
            },
            None => {
                proof {
                    assert(self.view_table() =~= old(self).view_table());
                }
            },
        }
    }
}

/// The kernel's process queue of process ids: the queued process with ready
/// threads whose published priority is highest (the earliest in the queue on
/// a tie) runs next and then moves to the back.
pub struct TaskManager {
    process_queue: VecDeque<usize>,
}

/// The priority by which processes compare: the published priority read as
/// a signed word.
pub open spec fn rank(prio: usize) -> int {
    (prio as isize) as int
}

/// Scans the first `n` processes of `q` and gives the index and rank of the
/// one picked so far (`(-1, -1)` before any non-empty process): a non-empty
/// process is picked when its rank beats the best so far.
pub open spec fn scan<T>(q: Seq<(usize, usize, Seq<T>)>, n: int) -> (int, int)
    decreases n,
{
    if n <= 0 {
        (-1, -1)
    } else {
        let (i, m) = scan(q, n - 1);
        let p = q[n - 1];
        if p.2.len() > 0 && rank(p.1) > m {
            (n - 1, rank(p.1))
        } else {
            (i, m)
        }
    }
}

/// The queue `q` as the scan sees it: each queued id with its live
/// process's priority and ready threads (an unknown id counts as idle).
pub open spec fn entries<T>(q: Seq<usize>, m: Map<usize, (usize, Seq<T>)>) -> Seq<(usize, usize, Seq<T>)> {
    Seq::new(q.len(), |i: int| if m.contains_key(q[i]) { (q[i], m[q[i]].0, m[q[i]].1) } else { (q[i], 0usize, Seq::empty()) })
}

/// The index of the first `pid` among the first `n` ids of `q`, or -1.
pub open spec fn find_pid(q: Seq<usize>, pid: usize, n: int) -> int
    decreases n,
{
    if n <= 0 {
        -1
    } else {
        let i = find_pid(q, pid, n - 1);
        if i >= 0 {
            i
        } else if q[n - 1] == pid {
            n - 1
        } else {
            -1
        }
    }
}

proof fn lemma_scan_bounds<T>(q: Seq<(usize, usize, Seq<T>)>, n: int)
    requires
        0 <= n <= q.len(),
    ensures
        -1 <= scan(q, n).0 < n,
        scan(q, n).0 >= 0 ==> q[scan(q, n).0].2.len() > 0,
    decreases n,
{
    if n > 0 {
        lemma_scan_bounds(q, n - 1);
    }
}

proof fn lemma_find_pid_bounds(q: Seq<usize>, pid: usize, n: int)
    requires
        0 <= n <= q.len(),
    ensures
        -1 <= find_pid(q, pid, n) < n,
        find_pid(q, pid, n) >= 0 ==> q[find_pid(q, pid, n)] == pid,
    decreases n,
{
    if n > 0 {
        lemma_find_pid_bounds(q, pid, n - 1);
    }
}

/// Once a prefix finds `pid`, longer prefixes find the same index.
proof fn lemma_find_prefix(q: Seq<usize>, pid: usize, m: int, n: int)
    requires
        0 <= m <= n,
        find_pid(q, pid, m) >= 0,
    ensures
        find_pid(q, pid, n) == find_pid(q, pid, m),
    decreases n - m,
{
    if n > m {
        lemma_find_prefix(q, pid, m, n - 1);
    }
}

impl TaskManager {
    /// The queued process ids, front first.
    pub closed spec fn view_queue(&self) -> Seq<usize> {
        self.process_queue@
    }

    /// An empty queue.
    pub fn new() -> (r: Self)
        ensures
            r.view_queue() == Seq::<usize>::empty(),
    {
        TaskManager { process_queue: VecDeque::new() }
    }

    /// Makes thread `task` of process `pid` ready: it joins the process's
    /// ready threads whether or not the process is queued; nothing happens
    /// when the process is no longer live.
    pub fn add<T>(&mut self, procs: &mut ProcessTable<T>, pid: usize, task: T)
        ensures
            final(self).view_queue() == old(self).view_queue(),
            old(procs).view_table().contains_key(pid) ==> final(procs).view_table() == old(procs).view_table().insert(
                pid, (old(procs).view_table()[pid].0, old(procs).view_table()[pid].1.push(task))),
            !old(procs).view_table().contains_key(pid) ==> final(procs).view_table() == old(procs).view_table(),
    {
        match procs.map.remove(&pid) {
            Some(mut process) => {
                process.ready_tasks.push(task);
                procs.map.insert(pid, process);
                proof {
                    let o = old(procs).view_table();
                    assert(procs.view_table() =~= o.insert(pid, (o[pid].0, o[pid].1.push(task))));
                }
            },
            None => {
                proof {
                    assert(procs.view_table() =~= old(procs).view_table());
                }
            },
        }
    }

    /// Puts process `pid` at the back of the queue.
    pub fn push(&mut self, pid: usize)
        ensures
            final(self).view_queue() == old(self).view_queue().push(pid),
    {
        self.process_queue.push_back(pid);
    }

    /// Runs the scan over the queued processes: the picked one gives up its
    /// last ready thread and moves to the back of the queue; `None` when
    /// every queued process is idle.
    pub fn fetch<T>(&mut self, procs: &mut ProcessTable<T>) -> (r: Option<T>)
        ensures
            ({
                let q = old(self).view_queue();
                let m = old(procs).view_table();
                let e = entries(q, m);
                let i = scan(e, e.len() as int).0;
                if i >= 0 {
                    &&& r == Some(e[i].2.last())
                    &&& final(self).view_queue() == q.remove(i).push(q[i])
                    &&& final(procs).view_table() == m.insert(q[i], (e[i].1, e[i].2.drop_last()))
                } else {
                    &&& r is None
                    &&& final(self).view_queue() == q
                    &&& final(procs).view_table() == m
                }
            }),
            ({
                let q = old(self).view_queue();
                let m = old(procs).view_table();
                &&& r is Some ==> exists|i: int| #![trigger q[i]] {
                    &&& 0 <= i < q.len()
                    &&& has_ready(m, q[i])
                    &&& (m[q[i]].0 as isize) >= 0
                    &&& r == Some(m[q[i]].1.last())
                    &&& final(self).view_queue() == q.remove(i).push(q[i])
                    &&& forall|j: int| 0 <= j < q.len() && has_ready(m, #[trigger] q[j])
                        ==> (m[q[j]].0 as isize) <= (m[q[i]].0 as isize)
                    &&& forall|j: int| 0 <= j < i && has_ready(m, #[trigger] q[j])
                        ==> (m[q[j]].0 as isize) < (m[q[i]].0 as isize)
                }
                &&& r is None ==> forall|j: int| 0 <= j < q.len() && has_ready(m, #[trigger] q[j])
                    ==> (m[q[j]].0 as isize) < 0
            }),
    {
        let ghost q = self.view_queue();
        let ghost m = procs.view_table();
        let ghost e = entries(q, m);
        let len = self.process_queue.len();
        let mut index: Option<usize> = None;
        let mut max_prio: isize = -1;
        let mut i: usize = 0;
        while i < len
            invariant
                i <= len,
                len == q.len(),
                e == entries(q, m),
                self.view_queue() == q,
                procs.view_table() == m,
                self.process_queue@.len() == len,
                ({
                    let (si, sm) = scan(e, i as int);
                    &&& sm == max_prio as int
                    &&& (si == -1 <==> index is None)
                    &&& index matches Some(x) ==> si == x as int
                }),
            decreases len - i,
        {
            let pid = self.process_queue[i];
            match procs.map.get(&pid) {
                Some(process) => {
                    assert(e[i as int] == (pid, process.prio, process.ready_tasks@));
                    if process.ready_tasks.len() != 0 {
                        let prio = process.prio;
                        if prio as isize > max_prio {
                            index = Some(i);
                            max_prio = prio as isize;
                        }
                    }
                },
                None => {
                    assert(e[i as int].2.len() == 0);
                },
            }
            i = i + 1;
        }
        proof {
            lemma_scan_bounds(e, e.len() as int);
            fetch_picks_highest_ready(q, m);
        }
        match index {
            Some(idx) => {
                let pid = self.process_queue.remove(idx).unwrap();
                self.process_queue.push_back(pid);
                let mut process = procs.map.remove(&pid).unwrap();
                let task = process.ready_tasks.pop();
                let ghost ready = process.ready_tasks@;
                let ghost prio = process.prio;
                procs.map.insert(pid, process);
                proof {
                    let p = e[idx as int];
                    assert(m.contains_key(pid));
                    assert(p.2.drop_last() =~= p.2.subrange(0, p.2.len() as int - 1));
                    assert(procs.view_table() =~= m.insert(pid, (p.1, p.2.drop_last())));
                }
                task
            },
            None => None,
        }
    }

    /// Takes the first occurrence of process `pid` off the queue (nothing
    /// happens when it is not queued); the process stays live.
    pub fn remove(&mut self, pid: usize)
        ensures
            ({
                let q = old(self).view_queue();
                let i = find_pid(q, pid, q.len() as int);
                if i >= 0 {
                    final(self).view_queue() == q.remove(i)
                } else {
                    final(self).view_queue() == q
                }
            }),
            old(self).view_queue().contains(pid) ==> exists|i: int| #![trigger old(self).view_queue()[i]] {
                &&& 0 <= i < old(self).view_queue().len()
                &&& old(self).view_queue()[i] == pid
                &&& forall|j: int| 0 <= j < i ==> #[trigger] old(self).view_queue()[j] != pid
                &&& final(self).view_queue() == old(self).view_queue().remove(i)
            },
            old(self).view_queue().contains(pid) ==> final(self).view_queue().len() == old(self).view_queue().len() - 1,
            !old(self).view_queue().contains(pid) ==> final(self).view_queue() == old(self).view_queue(),
    {
        proof {
            remove_takes_first_occurrence(old(self).view_queue(), pid);
        }
        let ghost q = self.view_queue();
        let len = self.process_queue.len();
        let mut i: usize = 0;
        while i < len
            invariant
                i <= len,
                len == q.len(),
                self.view_queue() == q,
                q == old(self).view_queue(),
                self.process_queue@.len() == len,
                find_pid(q, pid, i as int) == -1,
            decreases len - i,
        {
            if self.process_queue[i] == pid {
                proof {
                    assert(find_pid(q, pid, i as int + 1) == i as int);
                    lemma_find_prefix(q, pid, i as int + 1, q.len() as int);
                }
                self.process_queue.remove(i);
                proof {
                    remove_takes_first_occurrence(q, pid);
                    assert(q[i as int] == pid);
                }
                return;
            }
            i = i + 1;
        }
    }
}

/// The process `fetch` picks has the highest rank among the processes with
/// ready threads and comes first among those of that rank; `fetch` picks
/// nothing only when no process of non-negative rank has a ready thread.
pub proof fn fetch_picks_highest_first<T>(q: Seq<(usize, usize, Seq<T>)>)
    ensures
        ({
            let i = scan(q, q.len() as int).0;
            &&& i >= 0 ==> {
                &&& 0 <= i < q.len()
                &&& q[i].2.len() > 0
                &&& forall|j: int| 0 <= j < q.len() && #[trigger] q[j].2.len() > 0 ==> rank(q[j].1) <= rank(q[i].1)
                &&& forall|j: int| 0 <= j < i && #[trigger] q[j].2.len() > 0 ==> rank(q[j].1) < rank(q[i].1)
            }
            &&& i < 0 ==> forall|j: int| 0 <= j < q.len() && #[trigger] q[j].2.len() > 0 ==> rank(q[j].1) < 0
        }),
{
    lemma_scan_max(q, q.len() as int);
}

proof fn lemma_scan_max<T>(q: Seq<(usize, usize, Seq<T>)>, n: int)
    requires
        0 <= n <= q.len(),
    ensures
        ({
            let (i, m) = scan(q, n);
            &&& -1 <= i < n
            &&& i >= 0 ==> q[i].2.len() > 0 && m == rank(q[i].1) && m >= 0
            &&& i < 0 ==> m == -1
            &&& forall|j: int| 0 <= j < n && #[trigger] q[j].2.len() > 0 ==> rank(q[j].1) <= m
            &&& forall|j: int| 0 <= j < i && #[trigger] q[j].2.len() > 0 ==> rank(q[j].1) < m
            &&& i < 0 ==> forall|j: int| 0 <= j < n && #[trigger] q[j].2.len() > 0 ==> rank(q[j].1) < 0
        }),
    decreases n,
{
    if n > 0 {
        lemma_scan_max(q, n - 1);
    }
}

/// Process `pid` is live and has a ready thread.
pub open spec fn has_ready<T>(m: Map<usize, (usize, Seq<T>)>, pid: usize) -> bool {
    m.contains_key(pid) && m[pid].1.len() > 0
}

/// What `fetch` picks, in terms of the queue and the process table: a
/// queued live process with a ready thread whose published priority, read
/// as a signed word, is non-negative, at least that of every queued process
/// with a ready thread, and greater than that of every such process ahead
/// of it; nothing is picked only when every queued process with a ready
/// thread publishes a negative priority.
pub proof fn fetch_picks_highest_ready<T>(q: Seq<usize>, m: Map<usize, (usize, Seq<T>)>)
    ensures
        ({
            let i = scan(entries(q, m), q.len() as int).0;
            &&& i >= 0 ==> {
                &&& 0 <= i < q.len()
                &&& has_ready(m, q[i])
                &&& (m[q[i]].0 as isize) >= 0
                &&& forall|j: int| 0 <= j < q.len() && has_ready(m, #[trigger] q[j])
                    ==> (m[q[j]].0 as isize) <= (m[q[i]].0 as isize)
                &&& forall|j: int| 0 <= j < i && has_ready(m, #[trigger] q[j])
                    ==> (m[q[j]].0 as isize) < (m[q[i]].0 as isize)
            }
            &&& i < 0 ==> forall|j: int| 0 <= j < q.len() && has_ready(m, #[trigger] q[j])
                ==> (m[q[j]].0 as isize) < 0
        }),
{
    let e = entries(q, m);
    lemma_scan_max(e, e.len() as int);
    let i = scan(e, e.len() as int).0;
    assert forall|j: int| 0 <= j < q.len() && has_ready(m, #[trigger] q[j]) implies
        e[j].2.len() > 0 && rank(e[j].1) == (m[q[j]].0 as isize) as int by {}
    if i >= 0 {
        assert(m.contains_key(q[i]));
    }
}

/// What `remove` takes off, in terms of the queue: when `pid` is queued,
/// the position `remove` uses holds `pid` and no earlier position does,
/// so exactly its first occurrence leaves; when it is not queued, nothing.
pub proof fn remove_takes_first_occurrence(q: Seq<usize>, pid: usize)
    ensures
        ({
            let i = find_pid(q, pid, q.len() as int);
            &&& q.contains(pid) ==> {
                &&& 0 <= i < q.len()
                &&& q[i] == pid
                &&& forall|j: int| 0 <= j < i ==> #[trigger] q[j] != pid
                &&& q.remove(i).len() == q.len() - 1
            }
            &&& !q.contains(pid) ==> i < 0
        }),
{
    lemma_find_pid_bounds(q, pid, q.len() as int);
    lemma_find_pid_first(q, pid, q.len() as int);
    if q.contains(pid) {
        let w = choose|w: int| 0 <= w < q.len() && q[w] == pid;
        lemma_find_pid_finds(q, pid, q.len() as int, w);
    }
}

/// No position before the one `find_pid` gives holds `pid`.
proof fn lemma_find_pid_first(q: Seq<usize>, pid: usize, n: int)
    requires
        0 <= n <= q.len(),
    ensures
        forall|j: int| 0 <= j < n && (find_pid(q, pid, n) < 0 || j < find_pid(q, pid, n)) ==> #[trigger] q[j] != pid,
    decreases n,
{
    if n > 0 {
        lemma_find_pid_first(q, pid, n - 1);
        lemma_find_pid_bounds(q, pid, n - 1);
    }
}

/// A prefix that holds `pid` at position `w` makes `find_pid` find it.
proof fn lemma_find_pid_finds(q: Seq<usize>, pid: usize, n: int, w: int)
    requires
        0 <= w < n <= q.len(),
        q[w] == pid,
    ensures
        find_pid(q, pid, n) >= 0,
    decreases n,
{
    if w < n - 1 {
        lemma_find_pid_finds(q, pid, n - 1, w);
    }
}

} // verus!
