//! Multi-hart task scheduler: per-hart priority run queues with work stealing.
use vstd::prelude::*;
use crate::task::{Pid, Priority, Task, TaskEntry, TaskInfo, TaskState, TaskTable, NO_HART};

verus! {

/// Number of harts the scheduler keeps run queues for.
pub const MAX_HARTS: usize = 8;

/// A run-queue entry: the task's pid and the priority it was queued with.
#[derive(Clone, Copy, Debug)]
pub struct QueuedTask {
    pub pid: Pid,
    pub priority: Priority,
}

/// Where `enqueue` puts a task of priority level `lvl`: before the first entry of a lower level,
/// or at the end.
pub open spec fn insert_pos(s: Seq<QueuedTask>, lvl: int) -> int
    decreases s.len(),
{
    if s.len() == 0 {
        0
    } else if s[0].priority.level() < lvl {
        0
    } else {
        1 + insert_pos(s.drop_first(), lvl)
    }
}

/// Entries are in non-increasing priority order.
pub open spec fn priority_sorted(s: Seq<QueuedTask>) -> bool {
    forall|i: int, j: int| 0 <= i < j < s.len() ==> s[i].priority.level() >= s[j].priority.level()
}

/// Whether the task with this pid is registered and ready to run.
pub open spec fn runnable_in(tasks: Seq<Task>, pid: Pid) -> bool {
    exists|j: int| 0 <= j < tasks.len() && tasks[j].pid == pid && tasks[j].state == TaskState::Ready
}

/// Position of the first queued task that is ready to run (the queue's length if none is).
pub open spec fn first_runnable(q: Seq<QueuedTask>, tasks: Seq<Task>) -> int
    decreases q.len(),
{
    if q.len() == 0 {
        0
    } else if runnable_in(tasks, q[0].pid) {
        0
    } else {
        1 + first_runnable(q.drop_first(), tasks)
    }
}

proof fn lemma_first_runnable_unique(q: Seq<QueuedTask>, tasks: Seq<Task>, p: int)
    requires
        0 <= p <= q.len(),
        forall|k: int| 0 <= k < p ==> !runnable_in(tasks, #[trigger] q[k].pid),
        p < q.len() ==> runnable_in(tasks, q[p].pid),
    ensures
        first_runnable(q, tasks) == p,
    decreases q.len(),
{
    if q.len() > 0 && p > 0 {
        assert(!runnable_in(tasks, q[0].pid));
        assert forall|k: int| 0 <= k < p - 1 implies !runnable_in(tasks, #[trigger] q.drop_first()[k].pid) by {
            assert(q.drop_first()[k] == q[k + 1]);
        }
        lemma_first_runnable_unique(q.drop_first(), tasks, p - 1);
    }
}

/// Per-hart run queue
pub struct RunQueue {
    /// Tasks waiting to run (priority sorted)
    pub tasks: Vec<QueuedTask>,
    /// Currently running task on this hart
    pub current: Option<Pid>,
}

impl View for RunQueue {
    type V = Seq<QueuedTask>;

    open spec fn view(&self) -> Seq<QueuedTask> {
        self.tasks@
    }
}

proof fn lemma_insert_pos_bounds(s: Seq<QueuedTask>, lvl: int)
    ensures
        0 <= insert_pos(s, lvl) <= s.len(),
        forall|k: int| 0 <= k < insert_pos(s, lvl) ==> s[k].priority.level() >= lvl,
        insert_pos(s, lvl) < s.len() ==> s[insert_pos(s, lvl)].priority.level() < lvl,
    decreases s.len(),
{
    if s.len() > 0 && s[0].priority.level() >= lvl {
        lemma_insert_pos_bounds(s.drop_first(), lvl);
        assert forall|k: int| 0 <= k < insert_pos(s, lvl) implies s[k].priority.level() >= lvl by {
            if k > 0 {
                assert(s[k] == s.drop_first()[k - 1]);
            }
        }
    }
}

/// A queue position `p` is where `enqueue` inserts exactly when every entry before it has at
/// least level `lvl` and the entry at it (if any) has a lower level.
proof fn lemma_insert_pos_unique(s: Seq<QueuedTask>, lvl: int, p: int)
    requires
        0 <= p <= s.len(),
        forall|k: int| 0 <= k < p ==> s[k].priority.level() >= lvl,
        p < s.len() ==> s[p].priority.level() < lvl,
    ensures
        insert_pos(s, lvl) == p,
    decreases s.len(),
{
    if s.len() > 0 && p > 0 {
        lemma_insert_pos_unique(s.drop_first(), lvl, p - 1);
    }
}

impl RunQueue {
    pub fn new() -> (q: RunQueue)
        ensures
            q@ == Seq::<QueuedTask>::empty(),
            q.current is None,
    {
        RunQueue { tasks: Vec::new(), current: None }
    }

    /// Add a task to the queue (maintains priority order)
    pub fn enqueue(&mut self, task: QueuedTask)
        ensures
            final(self)@ == old(self)@.insert(insert_pos(old(self)@, task.priority.level()), task),
            final(self).current == old(self).current,
            ({
                let p = insert_pos(old(self)@, task.priority.level());
                &&& 0 <= p <= old(self)@.len()
                &&& forall|k: int| 0 <= k < p ==> old(self)@[k].priority.level() >= task.priority.level()
                &&& priority_sorted(old(self)@) ==> (forall|k: int|
                    p <= k < old(self)@.len() ==> old(self)@[k].priority.level() < task.priority.level())
                &&& priority_sorted(old(self)@) ==> priority_sorted(final(self)@)
            }),
    {
        let priority = task.priority.rank();
        let mut insert_pos: usize = self.tasks.len();
        let mut i: usize = 0;
        while i < self.tasks.len()
            invariant_except_break
                insert_pos == self@.len(),
            invariant
                i <= self@.len(),
                priority == task.priority.level(),
                forall|k: int| 0 <= k < i ==> self@[k].priority.level() >= priority,
            ensures
                insert_pos <= self@.len(),
                forall|k: int| 0 <= k < insert_pos ==> self@[k].priority.level() >= priority,
                insert_pos < self@.len() ==> self@[insert_pos as int].priority.level() < priority,
            decreases self@.len() - i,
        {
            if self.tasks[i].priority.rank() < priority {
                insert_pos = i;
                break;
            }
            i = i + 1;
        }
        proof {
            lemma_insert_pos_unique(self@, priority as int, insert_pos as int);
            if priority_sorted(self@) {
                lemma_enqueue_keeps_priority_order(self@, task);
            }
        }
        self.tasks.insert(insert_pos, task);
    }

    /// Position of the first queued task that is ready (the queue's length if none is).
    pub fn find_runnable(&self, tasks: &TaskTable) -> (i: usize)
        requires
            tasks.wf(),
        ensures
            i == first_runnable(self@, tasks@),
            i <= self@.len(),
    {
        let mut i: usize = 0;
        while i < self.tasks.len()
            invariant
                i <= self@.len(),
                tasks.wf(),
                forall|k: int| 0 <= k < i ==> !runnable_in(tasks@, #[trigger] self@[k].pid),
            decreases self@.len() - i,
        {
            let pid = self.tasks[i].pid;
            match tasks.find(pid) {
                Some(j) => {
                    if tasks.tasks[j].is_runnable() {
                        proof {
                            lemma_first_runnable_unique(self@, tasks@, i as int);
                        }
                        return i;
                    }
                    proof {
                        assert forall|j2: int|
                            0 <= j2 < tasks@.len() && tasks@[j2].pid == pid implies tasks@[j2].state
                            != TaskState::Ready by {
                            if j2 < j {
                                assert(tasks@[j2].pid < tasks@[j as int].pid);
                            } else if j2 > j {
                                assert(tasks@[j as int].pid < tasks@[j2].pid);
                            }
                        }
                    }
                },
                None => {},
            }
            i = i + 1;
        }
        proof {
            lemma_first_runnable_unique(self@, tasks@, self@.len() as int);
        }
        i
    }

    /// Get next task to run: the first queued task that is ready.
    pub fn dequeue(&mut self, tasks: &TaskTable) -> (r: Option<QueuedTask>)
        requires
            tasks.wf(),
        ensures
            match r {
                Some(t) => exists|i: int|
                    #![trigger old(self)@[i]]
                    0 <= i < old(self)@.len() && old(self)@[i] == t && runnable_in(tasks@, t.pid)
                        && (forall|k: int| 0 <= k < i ==> !runnable_in(tasks@, old(self)@[k].pid))
                        && final(self)@ == old(self)@.remove(i),
                None => final(self)@ == old(self)@ && forall|k: int|
                    0 <= k < old(self)@.len() ==> !runnable_in(tasks@, #[trigger] old(self)@[k].pid),
            },
            ({
                let i = first_runnable(old(self)@, tasks@);
                &&& i < old(self)@.len() ==> r == Some(old(self)@[i]) && final(self)@ == old(self)@.remove(i)
                &&& i == old(self)@.len() ==> r is None && final(self)@ == old(self)@
            }),
            final(self).current == old(self).current,
    {
        let mut i: usize = 0;
        while i < self.tasks.len()
            invariant
                i <= self@.len(),
                self@ == old(self)@,
                self.current == old(self).current,
                tasks.wf(),
                forall|k: int| 0 <= k < i ==> !runnable_in(tasks@, #[trigger] self@[k].pid),
            decreases self@.len() - i,
        {
            let pid = self.tasks[i].pid;
            match tasks.find(pid) {
                Some(j) => {
                    if tasks.tasks[j].is_runnable() {
                        proof {
                            lemma_first_runnable_unique(self@, tasks@, i as int);
                        }
                        let t = self.tasks.remove(i);
                        assert(old(self)@[i as int] == t);
                        return Some(t);
                    }
                    proof {
                        assert forall|j2: int|
                            0 <= j2 < tasks@.len() && tasks@[j2].pid == pid implies tasks@[j2].state
                            != TaskState::Ready by {
                            if j2 < j {
                                assert(tasks@[j2].pid < tasks@[j as int].pid);
                            } else if j2 > j {
                                assert(tasks@[j as int].pid < tasks@[j2].pid);
                            }
                        }
                    }
                },
                None => {},
            }
            i = i + 1;
        }
        proof {
            lemma_first_runnable_unique(self@, tasks@, self@.len() as int);
        }
        None
    }

    /// Number of tasks in queue
    pub fn len(&self) -> (n: usize)
        ensures
            n == self@.len(),
    {
        self.tasks.len()
    }

    /// Check if queue is empty
    pub fn is_empty(&self) -> (b: bool)
        ensures
            b == (self@.len() == 0),
    {
        self.tasks.len() == 0
    }

    /// Steal a task from this queue (for work stealing): the last (lowest priority) task, and
    /// only when more than one is queued.
    pub fn steal(&mut self) -> (r: Option<QueuedTask>)
        ensures
            old(self)@.len() > 1 ==> r == Some(old(self)@.last()) && final(self)@ == old(
                self,
            )@.drop_last(),
            old(self)@.len() <= 1 ==> r is None && final(self)@ == old(self)@,
            final(self).current == old(self).current,
    {
        if self.tasks.len() > 1 {
            self.tasks.pop()
        } else {
            None
        }
    }
}

/// Enqueueing keeps a run queue in priority order, and a task joins behind every queued task of
/// the same or higher priority and ahead of every lower one.
pub proof fn lemma_enqueue_keeps_priority_order(s: Seq<QueuedTask>, t: QueuedTask)
    requires
        priority_sorted(s),
    ensures
        priority_sorted(s.insert(insert_pos(s, t.priority.level()), t)),
        ({
            let p = insert_pos(s, t.priority.level());
            &&& forall|k: int| 0 <= k < p ==> s[k].priority.level() >= t.priority.level()
            &&& forall|k: int| p <= k < s.len() ==> s[k].priority.level() < t.priority.level()
        }),
{
    let lvl = t.priority.level();
    lemma_insert_pos_bounds(s, lvl);
    let p = insert_pos(s, lvl);
    let r = s.insert(p, t);
    assert forall|i: int, j: int| 0 <= i < j < r.len() implies r[i].priority.level()
        >= r[j].priority.level() by {
        if j < p {
        } else if j == p {
        } else if i < p {
        } else if i == p {
            assert(r[j] == s[j - 1]);
            assert(s[p].priority.level() >= s[j - 1].priority.level());
        } else {
        }
    }
}

/// Create the array of per-hart run queues
pub fn create_queue_array() -> (qs: Vec<RunQueue>)
    ensures
        qs@.len() == MAX_HARTS,
        forall|h: int| 0 <= h < MAX_HARTS ==> qs@[h]@.len() == 0 && (#[trigger] qs@[h]).current is None,
{
    let mut qs: Vec<RunQueue> = Vec::new();
    let mut h: usize = 0;
    while h < MAX_HARTS
        invariant
            h <= MAX_HARTS,
            qs@.len() == h,
            forall|k: int| 0 <= k < h ==> qs@[k]@.len() == 0 && (#[trigger] qs@[k]).current is None,
        decreases MAX_HARTS - h,
    {
        qs.push(RunQueue::new());
        h = h + 1;
    }
    qs
}

/// The smallest hart below `n`, other than `hart`, whose queue holds more than one task (`n` when
/// there is none): the queue `pick_next` steals from.
pub open spec fn first_victim(lens: Seq<int>, n: int, hart: int) -> int
    decreases n,
{
    if n <= 0 {
        0
    } else {
        let r = first_victim(lens, n - 1, hart);
        if r < n - 1 {
            r
        } else if n - 1 != hart && lens[n - 1] > 1 {
            n - 1
        } else {
            n
        }
    }
}

/// The first hart below `n` with the fewest queued tasks (0 when `n` is 0).
pub open spec fn least_loaded(lens: Seq<int>, n: int) -> int
    decreases n,
{
    if n <= 1 {
        0
    } else {
        let r = least_loaded(lens, n - 1);
        if lens[n - 1] < lens[r] {
            n - 1
        } else {
            r
        }
    }
}

/// The registry entry a spawn creates.
pub open spec fn spawned(
    t: Task,
    pid: Pid,
    name: Seq<char>,
    entry: TaskEntry,
    priority: Priority,
    affinity: Option<usize>,
    hart: usize,
    now: u64,
    daemon: bool,
) -> bool {
    &&& t.pid == pid
    &&& t.name@ == name
    &&& t.state == TaskState::Ready
    &&& t.priority == priority
    &&& t.hart_affinity == affinity
    &&& t.current_hart == NO_HART
    &&& t.assigned_hart == hart
    &&& t.entry == entry
    &&& t.created_at == now
    &&& t.cpu_time == 0
    &&& t.exit_code == 0
    &&& t.is_daemon == daemon
    &&& t.restart_on_exit == daemon
}

/// Whether a zombie is cleaned up by `reap_zombies` (restarting daemons are kept).
pub open spec fn reapable(t: Task) -> bool {
    t.state == TaskState::Zombie && !t.restart_on_exit
}

/// The registry entries `reap_zombies` keeps, in order.
pub open spec fn unreaped(s: Seq<Task>) -> Seq<Task>
    decreases s.len(),
{
    if s.len() == 0 {
        s
    } else if reapable(s.last()) {
        unreaped(s.drop_last())
    } else {
        unreaped(s.drop_last()).push(s.last())
    }
}

proof fn lemma_unreaped_subseq(s: Seq<Task>)
    ensures
        unreaped(s).len() <= s.len(),
        forall|i: int| 0 <= i < unreaped(s).len() ==> exists|j: int| 0 <= j < s.len() && s[j] == #[trigger] unreaped(s)[i],
        forall|i: int| 0 <= i < unreaped(s).len() ==> !reapable(#[trigger] unreaped(s)[i]),
    decreases s.len(),
{
    if s.len() > 0 {
        lemma_unreaped_subseq(s.drop_last());
        let r = unreaped(s.drop_last());
        assert forall|i: int| 0 <= i < unreaped(s).len() implies exists|j: int| 0 <= j < s.len() && s[j] == #[trigger] unreaped(s)[i] by {
            if i < r.len() {
                let j = choose|j: int| 0 <= j < s.drop_last().len() && s.drop_last()[j] == r[i];
                assert(s[j] == unreaped(s)[i]);
            } else {
                assert(s[s.len() - 1] == unreaped(s)[i]);
            }
        }
        assert forall|i: int| 0 <= i < unreaped(s).len() implies !reapable(#[trigger] unreaped(s)[i]) by {
            if i < r.len() {
                assert(unreaped(s)[i] == r[i]);
            }
        }
    }
}

proof fn lemma_unreaped_ascending(s: Seq<Task>)
    requires
        crate::task::pids_ascending(s),
    ensures
        crate::task::pids_ascending(unreaped(s)),
        forall|i: int| 0 <= i < unreaped(s).len() ==> exists|j: int| 0 <= j < s.len() && s[j] == #[trigger] unreaped(s)[i],
    decreases s.len(),
{
    lemma_unreaped_subseq(s);
    if s.len() > 0 {
        lemma_unreaped_ascending(s.drop_last());
        lemma_unreaped_subseq(s.drop_last());
        let r = unreaped(s.drop_last());
        if !reapable(s.last()) {
            assert forall|i: int| 0 <= i < r.len() implies r[i].pid < s.last().pid by {
                let j = choose|j: int| 0 <= j < s.drop_last().len() && s.drop_last()[j] == r[i];
                assert(s[j] == r[i]);
            }
        }
    }
}

/// The queue lengths of a sequence of run queues, hart by hart.
pub open spec fn lens_of(q: Seq<RunQueue>) -> Seq<int> {
    Seq::new(q.len(), |h: int| q[h]@.len() as int)
}

/// The hart a spawn enqueues on: the affinity if given, else the least loaded active hart.
pub open spec fn spawn_target(q: Seq<RunQueue>, num_harts: usize, affinity: Option<usize>) -> int {
    match affinity {
        Some(h) => h as int,
        None => least_loaded(lens_of(q), num_harts as int),
    }
}

/// What a spawn does: the next pid is taken, the new task is appended to the registry and
/// queued on its target hart by priority; nothing else changes.
pub open spec fn spawn_effect(
    q0: Seq<RunQueue>,
    t0: Seq<Task>,
    n0: u32,
    num_harts: usize,
    q1: Seq<RunQueue>,
    t1: Seq<Task>,
    n1: u32,
    pid: Pid,
    name: Seq<char>,
    entry: TaskEntry,
    priority: Priority,
    affinity: Option<usize>,
    now: u64,
    daemon: bool,
) -> bool {
    let h = spawn_target(q0, num_harts, affinity);
    &&& pid == n0
    &&& n1 == n0 + 1
    &&& t1.len() == t0.len() + 1
    &&& t1.drop_last() == t0
    &&& spawned(t1.last(), pid, name, entry, priority, affinity, h as usize, now, daemon)
    &&& q1.len() == q0.len()
    &&& q1[h]@ == q0[h]@.insert(insert_pos(q0[h]@, priority.level()), QueuedTask { pid, priority })
    &&& q1[h].current == q0[h].current
    &&& forall|k: int| 0 <= k < q0.len() && k != h ==> q1[k] == q0[k]
}

/// The hart to interrupt after a task was queued on `target_hart`: any hart
/// but the primary one (hart 0), which polls its queue anyway.
pub fn hart_to_wake(target_hart: usize) -> (r: Option<usize>)
    ensures
        r == (if target_hart != 0 {
            Some(target_hart)
        } else {
            None
        }),
{
    if target_hart != 0 {
        Some(target_hart)
    } else {
        None
    }
}

/// Global scheduler
pub struct Scheduler {
    /// Per-hart run queues
    pub queues: Vec<RunQueue>,
    /// Global task registry (PID -> Task)
    pub tasks: TaskTable,
    /// Next PID to assign
    pub next_pid: u32,
    /// Number of active harts
    pub num_harts: usize,
    /// Scheduler is initialized and running
    pub running: bool,
}

impl Scheduler {
    /// The queue lengths, hart by hart.
    pub open spec fn queue_lens(&self) -> Seq<int> {
        lens_of(self.queues@)
    }

    /// Sum of the lengths of the first `n` queues.
    pub open spec fn queued_total(&self, n: int) -> int
        decreases n,
    {
        if n <= 0 {
            0
        } else {
            self.queued_total(n - 1) + self.queues@[n - 1]@.len()
        }
    }

    /// Scheduler invariant: one queue per hart slot, at most that many active harts, registry in
    /// ascending pid order, and every registered pid below the next pid to assign.
    pub open spec fn wf(&self) -> bool {
        &&& self.queues@.len() == MAX_HARTS
        &&& self.num_harts <= MAX_HARTS
        &&& self.tasks.wf()
        &&& forall|i: int| 0 <= i < self.tasks@.len() ==> self.tasks@[i].pid < self.next_pid
        &&& forall|i: int| 0 <= i < self.tasks@.len() ==> ((#[trigger] self.tasks@[i]).hart_affinity matches Some(h) ==> h < MAX_HARTS)
        &&& self.next_pid >= 1
    }

    /// A fresh scheduler: PID 0 is reserved (idle), one hart, not running.
    pub fn new() -> (s: Scheduler)
        ensures
            s.wf(),
            s.tasks@.len() == 0,
            s.next_pid == 1,
            s.num_harts == 1,
            !s.running,
            forall|h: int| 0 <= h < MAX_HARTS ==> s.queues@[h]@.len() == 0,
    {
        Scheduler { queues: create_queue_array(), tasks: TaskTable::new(), next_pid: 1, num_harts: 1, running: false }
    }

    /// Initialize the scheduler with the number of available harts
    pub fn init(&mut self, num_harts: usize)
        requires
            old(self).wf(),
            num_harts <= MAX_HARTS,
        ensures
            final(self).wf(),
            final(self).num_harts == num_harts,
            final(self).running,
            final(self).queues == old(self).queues,
            final(self).tasks == old(self).tasks,
            final(self).next_pid == old(self).next_pid,
    {
        self.num_harts = num_harts;
        self.running = true;
    }

    /// Check if scheduler is running
    pub fn is_running(&self) -> (b: bool)
        ensures
            b == self.running,
    {
        self.running
    }

    /// Allocate a PID without spawning a task
    pub fn allocate_pid(&mut self) -> (pid: Pid)
        requires
            old(self).wf(),
            old(self).next_pid < u32::MAX,
        ensures
            final(self).wf(),
            pid == old(self).next_pid,
            final(self).next_pid == old(self).next_pid + 1,
            final(self).tasks == old(self).tasks,
            final(self).queues == old(self).queues,
            final(self).num_harts == old(self).num_harts,
            final(self).running == old(self).running,
    {
        let pid = self.next_pid;
        self.next_pid = self.next_pid + 1;
        pid
    }

    /// Enqueue a task on one hart's run queue.
    pub fn enqueue_on(&mut self, hart: usize, t: QueuedTask)
        requires
            hart < old(self).queues@.len(),
        ensures
            final(self).queues@.len() == old(self).queues@.len(),
            final(self).queues@[hart as int]@ == old(self).queues@[hart as int]@.insert(
                insert_pos(old(self).queues@[hart as int]@, t.priority.level()),
                t,
            ),
            final(self).queues@[hart as int].current == old(self).queues@[hart as int].current,
            forall|k: int| 0 <= k < old(self).queues@.len() && k != hart ==> final(self).queues@[k] == old(self).queues@[k],
            final(self).tasks == old(self).tasks,
            final(self).next_pid == old(self).next_pid,
            final(self).num_harts == old(self).num_harts,
            final(self).running == old(self).running,
    {
        self.queues[hart].enqueue(t);
    }

    /// Find the hart with the fewest queued tasks (the first such; hart 0 when no hart is active)
    pub fn find_least_loaded_hart(&self) -> (h: usize)
        requires
            self.wf(),
        ensures
            h == least_loaded(self.queue_lens(), self.num_harts as int),
            self.num_harts == 0 ==> h == 0,
            self.num_harts > 0 ==> h < self.num_harts
                && (forall|k: int| 0 <= k < self.num_harts ==> self.queues@[h as int]@.len() <= #[trigger] self.queues@[k]@.len())
                && (forall|k: int| 0 <= k < h ==> self.queues@[h as int]@.len() < #[trigger] self.queues@[k]@.len()),
    {
        let num_harts = self.num_harts;
        let mut min_load = usize::MAX;
        let mut target: usize = 0;
        let mut hart: usize = 0;
        while hart < num_harts
            invariant
                self.wf(),
                num_harts == self.num_harts,
                hart <= num_harts,
                target < MAX_HARTS,
                hart == 0 ==> target == 0 && min_load == usize::MAX,
                hart > 0 ==> target < hart && min_load == self.queues@[target as int]@.len(),
                hart > 0 && target == 0 ==> min_load == self.queues@[0]@.len(),
                hart > 0 ==> target == least_loaded(self.queue_lens(), hart as int),
                forall|k: int| 0 <= k < hart ==> min_load <= #[trigger] self.queues@[k]@.len(),
                forall|k: int| 0 <= k < target ==> min_load < #[trigger] self.queues@[k]@.len(),
            decreases num_harts - hart,
        {
            let load = self.queues[hart].len();
            if load < min_load {
                min_load = load;
                target = hart;
            }
            hart = hart + 1;
        }
        target
    }
}

impl Scheduler {
    /// Spawn a new task
    pub fn spawn(&mut self, name: &str, entry: TaskEntry, priority: Priority, now: u64) -> (pid: Pid)
        requires
            old(self).wf(),
            old(self).next_pid < u32::MAX,
        ensures
            final(self).wf(),
            spawn_effect(
                old(self).queues@,
                old(self).tasks@,
                old(self).next_pid,
                old(self).num_harts,
                final(self).queues@,
                final(self).tasks@,
                final(self).next_pid,
                pid,
                name@,
                entry,
                priority,
                None,
                now,
                false,
            ),
            final(self).num_harts == old(self).num_harts,
            final(self).running == old(self).running,
    {
        self.spawn_on_hart(name, entry, priority, None, now)
    }

    /// Spawn a task with hart affinity (no affinity: the least loaded hart).
    /// The hart it lands on (`spawn_target`) is then woken as `hart_to_wake` says.
    pub fn spawn_on_hart(
        &mut self,
        name: &str,
        entry: TaskEntry,
        priority: Priority,
        hart_affinity: Option<usize>,
        now: u64,
    ) -> (pid: Pid)
        requires
            old(self).wf(),
            old(self).next_pid < u32::MAX,
            hart_affinity matches Some(h) ==> h < MAX_HARTS,
        ensures
            final(self).wf(),
            spawn_effect(
                old(self).queues@,
                old(self).tasks@,
                old(self).next_pid,
                old(self).num_harts,
                final(self).queues@,
                final(self).tasks@,
                final(self).next_pid,
                pid,
                name@,
                entry,
                priority,
                hart_affinity,
                now,
                false,
            ),
            final(self).num_harts == old(self).num_harts,
            final(self).running == old(self).running,
    {
        let pid = self.allocate_pid();
        let mut task = Task::new(pid, name, entry, priority, now);
        task.hart_affinity = hart_affinity;
        let target_hart = match hart_affinity {
            Some(h) => h,
            None => self.find_least_loaded_hart(),
        };
        task.assigned_hart = target_hart;
        self.tasks.insert(task);
        self.enqueue_on(target_hart, QueuedTask { pid, priority });
        assert(self.tasks@.drop_last() =~= old(self).tasks@);
        assert(old(self).queue_lens() == lens_of(old(self).queues@));
        pid
    }

    /// Spawn a daemon task (long-running service)
    pub fn spawn_daemon(&mut self, name: &str, entry: TaskEntry, priority: Priority, now: u64) -> (pid: Pid)
        requires
            old(self).wf(),
            old(self).next_pid < u32::MAX,
        ensures
            final(self).wf(),
            spawn_effect(
                old(self).queues@,
                old(self).tasks@,
                old(self).next_pid,
                old(self).num_harts,
                final(self).queues@,
                final(self).tasks@,
                final(self).next_pid,
                pid,
                name@,
                entry,
                priority,
                None,
                now,
                true,
            ),
            final(self).num_harts == old(self).num_harts,
            final(self).running == old(self).running,
    {
        self.spawn_daemon_on_hart(name, entry, priority, None, now)
    }

    /// Spawn a daemon task on a specific hart (no affinity: the least loaded hart)
    pub fn spawn_daemon_on_hart(
        &mut self,
        name: &str,
        entry: TaskEntry,
        priority: Priority,
        hart_affinity: Option<usize>,
        now: u64,
    ) -> (pid: Pid)
        requires
            old(self).wf(),
            old(self).next_pid < u32::MAX,
            hart_affinity matches Some(h) ==> h < MAX_HARTS,
        ensures
            final(self).wf(),
            spawn_effect(
                old(self).queues@,
                old(self).tasks@,
                old(self).next_pid,
                old(self).num_harts,
                final(self).queues@,
                final(self).tasks@,
                final(self).next_pid,
                pid,
                name@,
                entry,
                priority,
                hart_affinity,
                now,
                true,
            ),
            final(self).num_harts == old(self).num_harts,
            final(self).running == old(self).running,
    {
        let pid = self.allocate_pid();
        let mut task = Task::new_daemon(pid, name, entry, priority, now);
        task.hart_affinity = hart_affinity;
        let target_hart = match hart_affinity {
            Some(h) => h,
            None => self.find_least_loaded_hart(),
        };
        task.assigned_hart = target_hart;
        self.tasks.insert(task);
        self.enqueue_on(target_hart, QueuedTask { pid, priority });
        assert(self.tasks@.drop_last() =~= old(self).tasks@);
        assert(old(self).queue_lens() == lens_of(old(self).queues@));
        pid
    }

    /// Get task by PID
    pub fn get_task(&self, pid: Pid) -> (r: Option<&Task>)
        ensures
            match r {
                Some(t) => exists|i: int| 0 <= i < self.tasks@.len() && self.tasks@[i] == *t && t.pid == pid,
                None => !self.tasks.has(pid),
            },
    {
        match self.tasks.find(pid) {
            Some(i) => Some(&self.tasks.tasks[i]),
            None => None,
        }
    }

    /// Get number of active tasks
    pub fn task_count(&self) -> (n: usize)
        ensures
            n == self.tasks@.len(),
    {
        self.tasks.len()
    }

    /// Get total tasks in all active harts' queues
    pub fn queued_count(&self) -> (n: usize)
        requires
            self.wf(),
            self.queued_total(self.num_harts as int) <= usize::MAX,
        ensures
            n == self.queued_total(self.num_harts as int),
    {
        let num_harts = self.num_harts;
        let mut total: usize = 0;
        let mut hart: usize = 0;
        while hart < num_harts
            invariant
                self.wf(),
                num_harts == self.num_harts,
                hart <= num_harts,
                total == self.queued_total(hart as int),
                self.queued_total(num_harts as int) <= usize::MAX,
            decreases num_harts - hart,
        {
            proof {
                lemma_queued_total_mono(self, (hart + 1) as int, num_harts as int);
            }
            total = total + self.queues[hart].len();
            hart = hart + 1;
        }
        total
    }

    /// List all tasks, in pid order, as seen at `current_time`
    pub fn list_tasks(&self, current_time: u64) -> (v: Vec<TaskInfo>)
        ensures
            v@.len() == self.tasks@.len(),
            forall|i: int| 0 <= i < v@.len() ==> {
                let t = self.tasks@[i];
                let info = #[trigger] v@[i];
                &&& info.pid == t.pid
                &&& info.name@ == t.name@
                &&& info.state == t.state
                &&& info.priority == t.priority
                &&& info.hart == crate::task::hart_of(t.current_hart)
                &&& info.cpu_time == t.cpu_time
                &&& info.uptime == current_time.saturating_sub(t.created_at)
            },
    {
        let mut v: Vec<TaskInfo> = Vec::new();
        let mut i: usize = 0;
        while i < self.tasks.tasks.len()
            invariant
                i <= self.tasks@.len(),
                v@.len() == i,
                forall|k: int| 0 <= k < i ==> {
                    let t = self.tasks@[k];
                    let info = #[trigger] v@[k];
                    &&& info.pid == t.pid
                    &&& info.name@ == t.name@
                    &&& info.state == t.state
                    &&& info.priority == t.priority
                    &&& info.hart == crate::task::hart_of(t.current_hart)
                    &&& info.cpu_time == t.cpu_time
                    &&& info.uptime == current_time.saturating_sub(t.created_at)
                },
            decreases self.tasks@.len() - i,
        {
            v.push(self.tasks.tasks[i].info(current_time));
            i = i + 1;
        }
        v
    }

    /// Clean up zombie tasks (restarting daemons stay); returns how many were removed
    pub fn reap_zombies(&mut self) -> (count: usize)
        requires
            old(self).wf(),
        ensures
            final(self).wf(),
            final(self).tasks@ == unreaped(old(self).tasks@),
            count == old(self).tasks@.len() - unreaped(old(self).tasks@).len(),
            final(self).queues == old(self).queues,
            final(self).next_pid == old(self).next_pid,
            final(self).num_harts == old(self).num_harts,
            final(self).running == old(self).running,
    {
        let ghost s0 = self.tasks@;
        let mut old_tasks: Vec<Task> = Vec::new();
        std::mem::swap(&mut old_tasks, &mut self.tasks.tasks);
        let mut kept: Vec<Task> = Vec::new();
        let mut i: usize = 0;
        let mut count: usize = 0;
        while i < old_tasks.len()
            invariant
                old_tasks@ == s0,
                i <= s0.len(),
                kept@ == unreaped(s0.take(i as int)),
                count + kept@.len() == i,
            decreases s0.len() - i,
        {
            assert(s0.take(i + 1).drop_last() =~= s0.take(i as int));
            proof {
                lemma_unreaped_subseq(s0.take(i as int));
            }
            let t = &old_tasks[i];
            if t.state == TaskState::Zombie && !t.restart_on_exit {
                count = count + 1;
            } else {
                kept.push(clone_task(t));
            }
            i = i + 1;
        }
        assert(s0.take(s0.len() as int) =~= s0);
        proof {
            lemma_unreaped_ascending(s0);
            assert forall|k: int| 0 <= k < kept@.len() implies kept@[k].pid < self.next_pid by {
                let j = choose|j: int| 0 <= j < s0.len() && s0[j] == unreaped(s0)[k];
            }
        }
        self.tasks.tasks = kept;
        count
    }
}

/// A copy of a task record.
pub fn clone_task(t: &Task) -> (c: Task)
    ensures
        c == *t,
{
    Task {
        pid: t.pid,
        name: t.name.clone(),
        state: t.state,
        priority: t.priority,
        hart_affinity: t.hart_affinity,
        current_hart: t.current_hart,
        assigned_hart: t.assigned_hart,
        entry: t.entry,
        created_at: t.created_at,
        cpu_time: t.cpu_time,
        exit_code: t.exit_code,
        is_daemon: t.is_daemon,
        restart_on_exit: t.restart_on_exit,
    }
}

proof fn lemma_queued_total_mono(s: &Scheduler, a: int, b: int)
    requires
        0 <= a <= b <= s.queues@.len(),
    ensures
        s.queued_total(a) <= s.queued_total(b),
    decreases b - a,
{
    if a < b {
        lemma_queued_total_mono(s, a, b - 1);
    }
}

/// Registry entries with one task changed at position `i`.
pub open spec fn finished_at(t0: Seq<Task>, i: int, exit_code: usize) -> Seq<Task> {
    t0.update(i, Task { exit_code, current_hart: NO_HART, state: TaskState::Zombie, ..t0[i] })
}

/// Position of the task with this pid in a registry.
pub open spec fn index_of_pid(t: Seq<Task>, pid: Pid) -> int {
    choose|i: int| 0 <= i < t.len() && t[i].pid == pid
}

impl Scheduler {
    /// Pick the next task for a hart to run: the first ready task in its own queue, else a task
    /// stolen from the back of the first other active hart's queue that holds more than one.
    pub fn pick_next(&mut self, hart_id: usize) -> (r: Option<Pid>)
        requires
            old(self).wf(),
            hart_id < MAX_HARTS,
        ensures
            final(self).wf(),
            final(self).next_pid == old(self).next_pid,
            final(self).num_harts == old(self).num_harts,
            final(self).running == old(self).running,
            ({
                let q0 = old(self).queues@;
                let own = first_runnable(q0[hart_id as int]@, old(self).tasks@);
                let v = first_victim(lens_of(q0), old(self).num_harts as int, hart_id as int);
                if own < q0[hart_id as int]@.len() {
                    &&& r == Some(q0[hart_id as int]@[own].pid)
                    &&& final(self).queues@[hart_id as int]@ == q0[hart_id as int]@.remove(own)
                    &&& forall|k: int| 0 <= k < MAX_HARTS && k != hart_id ==> final(self).queues@[k] == q0[k]
                    &&& final(self).tasks == old(self).tasks
                } else if v < old(self).num_harts {
                    let p = q0[v]@.last().pid;
                    &&& r == Some(p)
                    &&& final(self).queues@[v]@ == q0[v]@.drop_last()
                    &&& forall|k: int| 0 <= k < MAX_HARTS && k != v ==> final(self).queues@[k] == q0[k]
                    &&& final(self).tasks@ == with_assigned(old(self).tasks@, p, hart_id)
                } else {
                    &&& r is None
                    &&& final(self).queues@ == old(self).queues@
                    &&& final(self).tasks == old(self).tasks
                }
            }),
    {
        let ghost q0 = self.queues@;
        let own = self.queues[hart_id].find_runnable(&self.tasks);
        if own < self.queues[hart_id].len() {
            let t = self.queues[hart_id].tasks.remove(own);
            return Some(t.pid);
        }
        let num_harts = self.num_harts;
        let mut other: usize = 0;
        while other < num_harts
            invariant
                self.wf(),
                self.queues@ == q0,
                self.tasks == old(self).tasks,
                self.next_pid == old(self).next_pid,
                self.running == old(self).running,
                self.num_harts == old(self).num_harts,
                num_harts == self.num_harts,
                other <= num_harts,
                hart_id < MAX_HARTS,
                first_victim(lens_of(q0), other as int, hart_id as int) == other,
                q0 == old(self).queues@,
                first_runnable(q0[hart_id as int]@, old(self).tasks@) == q0[hart_id as int]@.len(),
            decreases num_harts - other,
        {
            proof {
                lemma_first_victim_step(lens_of(q0), other as int, hart_id as int);
            }
            if other != hart_id && self.queues[other].len() > 1 {
                let t = self.queues[other].steal();
                match t {
                    Some(t) => {
                        proof {
                            lemma_first_victim_stable(lens_of(q0), other as int + 1, num_harts as int, hart_id as int);
                        }
                        self.tasks.set_assigned_hart(t.pid, hart_id);
                        return Some(t.pid);
                    },
                    None => {},
                }
            }
            other = other + 1;
        }
        None
    }

    /// Requeue a task (e.g., after time slice expires) on a hart: it is no longer running, it is
    /// ready, and it is queued by priority on that hart.
    pub fn requeue(&mut self, task: QueuedTask, hart_id: usize)
        requires
            old(self).wf(),
            hart_id < MAX_HARTS,
        ensures
            final(self).wf(),
            final(self).tasks@ == requeued(old(self).tasks@, task.pid, hart_id),
            final(self).queues@[hart_id as int]@ == old(self).queues@[hart_id as int]@.insert(
                insert_pos(old(self).queues@[hart_id as int]@, task.priority.level()),
                task,
            ),
            forall|k: int| 0 <= k < MAX_HARTS && k != hart_id ==> final(self).queues@[k] == old(self).queues@[k],
            final(self).next_pid == old(self).next_pid,
            final(self).num_harts == old(self).num_harts,
            final(self).running == old(self).running,
    {
        self.tasks.mark_requeued(task.pid, hart_id);
        self.enqueue_on(hart_id, task);
    }

    /// Mark a task as finished; a daemon that restarts on exit is spawned again (as an ordinary
    /// task with the same name, entry, priority and affinity).
    pub fn finish_task(&mut self, pid: Pid, exit_code: usize, now: u64)
        requires
            old(self).wf(),
            old(self).next_pid < u32::MAX,
        ensures
            final(self).wf(),
            final(self).num_harts == old(self).num_harts,
            final(self).running == old(self).running,
            !old(self).tasks.has(pid) ==> final(self).tasks == old(self).tasks && final(self).queues
                == old(self).queues && final(self).next_pid == old(self).next_pid,
            old(self).tasks.has(pid) ==> ({
                let i = index_of_pid(old(self).tasks@, pid);
                let t = old(self).tasks@[i];
                let t1 = finished_at(old(self).tasks@, i, exit_code);
                if t.is_daemon && t.restart_on_exit {
                    exists|p: Pid| spawn_effect(
                        old(self).queues@,
                        t1,
                        old(self).next_pid,
                        old(self).num_harts,
                        final(self).queues@,
                        final(self).tasks@,
                        final(self).next_pid,
                        p,
                        t.name@,
                        t.entry,
                        t.priority,
                        t.hart_affinity,
                        now,
                        false,
                    )
                } else {
                    &&& final(self).tasks@ == t1
                    &&& final(self).queues == old(self).queues
                    &&& final(self).next_pid == old(self).next_pid
                }
            }),
    {
        match self.tasks.find(pid) {
            None => {},
            Some(i) => {
                proof {
                    lemma_index_of_pid(self.tasks@, pid, i as int);
                }
                self.tasks.tasks[i].mark_finished(exit_code);
                let ghost t1 = self.tasks@;
                assert(t1 == finished_at(old(self).tasks@, i as int, exit_code));
                if self.tasks.tasks[i].is_daemon && self.tasks.tasks[i].restart_on_exit {
                    let name = self.tasks.tasks[i].name.clone();
                    let entry = self.tasks.tasks[i].entry;
                    let priority = self.tasks.tasks[i].priority;
                    let affinity = self.tasks.tasks[i].hart_affinity;
                    let p = self.spawn_on_hart(name.as_str(), entry, priority, affinity, now);
                    assert(spawn_effect(
                        old(self).queues@,
                        t1,
                        old(self).next_pid,
                        old(self).num_harts,
                        self.queues@,
                        self.tasks@,
                        self.next_pid,
                        p,
                        old(self).tasks@[i as int].name@,
                        old(self).tasks@[i as int].entry,
                        old(self).tasks@[i as int].priority,
                        old(self).tasks@[i as int].hart_affinity,
                        now,
                        false,
                    ));
                }
            },
        }
    }

    /// Kill a task by PID. A daemon that restarts on exit is only marked finished (it will be
    /// respawned); any other task is marked finished and removed at once. False if no such task.
    pub fn kill(&mut self, pid: Pid) -> (b: bool)
        requires
            old(self).wf(),
        ensures
            final(self).wf(),
            b == old(self).tasks.has(pid),
            final(self).queues == old(self).queues,
            final(self).next_pid == old(self).next_pid,
            final(self).num_harts == old(self).num_harts,
            final(self).running == old(self).running,
            !b ==> final(self).tasks == old(self).tasks,
            b ==> ({
                let i = index_of_pid(old(self).tasks@, pid);
                let t = old(self).tasks@[i];
                if t.is_daemon && t.restart_on_exit {
                    final(self).tasks@ == finished_at(old(self).tasks@, i, 137)
                } else {
                    final(self).tasks@ == old(self).tasks@.remove(i)
                }
            }),
    {
        match self.tasks.find(pid) {
            None => false,
            Some(i) => {
                proof {
                    lemma_index_of_pid(self.tasks@, pid, i as int);
                }
                if self.tasks.tasks[i].is_daemon && self.tasks.tasks[i].restart_on_exit {
                    self.tasks.tasks[i].mark_finished(137);
                    assert(self.tasks@ == finished_at(old(self).tasks@, i as int, 137));
                    return true;
                }
                let _t = self.tasks.remove_at(i);
                true
            },
        }
    }
}

/// A registry in which the task with this pid (if any) is assigned to `hart`.
pub open spec fn with_assigned(s: Seq<Task>, pid: Pid, hart: usize) -> Seq<Task> {
    Seq::new(s.len(), |i: int| if s[i].pid == pid { Task { assigned_hart: hart, ..s[i] } } else { s[i] })
}

/// A registry in which the task with this pid (if any) is ready, not running, and assigned to `hart`.
pub open spec fn requeued(s: Seq<Task>, pid: Pid, hart: usize) -> Seq<Task> {
    Seq::new(
        s.len(),
        |i: int|
            if s[i].pid == pid {
                Task { current_hart: NO_HART, state: TaskState::Ready, assigned_hart: hart, ..s[i] }
            } else {
                s[i]
            },
    )
}

proof fn lemma_index_of_pid(t: Seq<Task>, pid: Pid, i: int)
    requires
        crate::task::pids_ascending(t),
        0 <= i < t.len(),
        t[i].pid == pid,
    ensures
        index_of_pid(t, pid) == i,
{
    let j = index_of_pid(t, pid);
    if j < i {
        assert(t[j].pid < t[i].pid);
    } else if j > i {
        assert(t[i].pid < t[j].pid);
    }
}

proof fn lemma_first_victim_step(lens: Seq<int>, n: int, hart: int)
    requires
        0 <= n,
        first_victim(lens, n, hart) == n,
    ensures
        (n != hart && lens[n] > 1) ==> first_victim(lens, n + 1, hart) == n,
        !(n != hart && lens[n] > 1) ==> first_victim(lens, n + 1, hart) == n + 1,
{
}

proof fn lemma_first_victim_stable(lens: Seq<int>, n: int, m: int, hart: int)
    requires
        0 <= n <= m,
        first_victim(lens, n, hart) < n,
    ensures
        first_victim(lens, m, hart) == first_victim(lens, n, hart),
    decreases m - n,
{
    if n < m {
        lemma_first_victim_stable(lens, n, m - 1, hart);
    }
}

proof fn lemma_first_victim_none(lens: Seq<int>, n: int, hart: int)
    requires
        0 <= n,
        first_victim(lens, n, hart) == n,
    ensures
        !(first_victim(lens, n, hart) < n),
{
}

impl TaskTable {
    /// Assign the task with this pid (if registered) to a hart.
    pub fn set_assigned_hart(&mut self, pid: Pid, hart: usize)
        ensures
            final(self)@ == with_assigned(old(self)@, pid, hart),
    {
        let ghost s0 = self@;
        let mut i: usize = 0;
        while i < self.tasks.len()
            invariant
                i <= self@.len(),
                self@.len() == s0.len(),
                forall|j: int| 0 <= j < i ==> self@[j] == with_assigned(s0, pid, hart)[j],
                forall|j: int| i <= j < self@.len() ==> self@[j] == s0[j],
            decreases self@.len() - i,
        {
            if self.tasks[i].pid == pid {
                self.tasks[i].assigned_hart = hart;
            }
            i = i + 1;
        }
        assert(self@ =~= with_assigned(s0, pid, hart));
    }

    /// Make the task with this pid (if registered) ready, not running, and assigned to a hart.
    pub fn mark_requeued(&mut self, pid: Pid, hart: usize)
        ensures
            final(self)@ == requeued(old(self)@, pid, hart),
    {
        let ghost s0 = self@;
        let mut i: usize = 0;
        while i < self.tasks.len()
            invariant
                i <= self@.len(),
                self@.len() == s0.len(),
                forall|j: int| 0 <= j < i ==> self@[j] == requeued(s0, pid, hart)[j],
                forall|j: int| i <= j < self@.len() ==> self@[j] == s0[j],
            decreases self@.len() - i,
        {
            if self.tasks[i].pid == pid {
                self.tasks[i].current_hart = NO_HART;
                self.tasks[i].state = TaskState::Ready;
                self.tasks[i].assigned_hart = hart;
            }
            i = i + 1;
        }
        assert(self@ =~= requeued(s0, pid, hart));
    }
}

} // verus!
