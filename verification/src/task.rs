//! Task control blocks, task states and priorities.
use vstd::prelude::*;

verus! {

/// Process identifier type
pub type Pid = u32;

/// Marker for "no hart": the value a task's current hart holds when it is not running.
pub const NO_HART: usize = usize::MAX;

/// Task states (similar to Linux process states)
#[derive(Clone, Copy, PartialEq, Eq, Debug, Structural)]
pub enum TaskState {
    /// Task is runnable, waiting for CPU
    Ready,
    /// Task is currently executing on a hart
    Running,
    /// Task is blocked (sleeping, waiting for I/O)
    Sleeping,
    /// Task has been stopped (can be resumed)
    Stopped,
    /// Task has finished, awaiting cleanup
    Zombie,
}

/// The state that a stored state code stands for; codes past the known ones read as `Zombie`.
pub open spec fn state_of_code(val: int) -> TaskState {
    if val == 0 {
        TaskState::Ready
    } else if val == 1 {
        TaskState::Running
    } else if val == 2 {
        TaskState::Sleeping
    } else if val == 3 {
        TaskState::Stopped
    } else {
        TaskState::Zombie
    }
}

impl TaskState {
    /// The numeric code under which a state is stored.
    pub open spec fn code(self) -> int {
        match self {
            TaskState::Ready => 0,
            TaskState::Running => 1,
            TaskState::Sleeping => 2,
            TaskState::Stopped => 3,
            TaskState::Zombie => 4,
        }
    }

    pub fn from_usize(val: usize) -> (s: TaskState)
        ensures
            s == state_of_code(val as int),
    {
        match val {
            0 => TaskState::Ready,
            1 => TaskState::Running,
            2 => TaskState::Sleeping,
            3 => TaskState::Stopped,
            _ => TaskState::Zombie,
        }
    }

    /// The numeric code of this state.
    pub fn to_usize(&self) -> (c: usize)
        ensures
            c == self.code(),
    {
        match self {
            TaskState::Ready => 0,
            TaskState::Running => 1,
            TaskState::Sleeping => 2,
            TaskState::Stopped => 3,
            TaskState::Zombie => 4,
        }
    }

    pub fn as_str(&self) -> (s: &'static str)
        ensures
            s@ == state_label(*self)@,
    {
        match self {
            TaskState::Ready => "R",
            TaskState::Running => "R+",
            TaskState::Sleeping => "S",
            TaskState::Stopped => "T",
            TaskState::Zombie => "Z",
        }
    }
}

/// The short label of a task state, as `ps` shows it.
pub open spec fn state_label(s: TaskState) -> &'static str {
    match s {
        TaskState::Ready => "R",
        TaskState::Running => "R+",
        TaskState::Sleeping => "S",
        TaskState::Stopped => "T",
        TaskState::Zombie => "Z",
    }
}

/// A stored state code read back gives the state that was stored.
pub proof fn lemma_state_code_roundtrip(s: TaskState)
    ensures
        state_of_code(s.code()) == s,
{
}

/// Task priority levels for scheduling
#[derive(Clone, Copy, PartialEq, Eq, Debug, Structural)]
pub enum Priority {
    /// Lowest priority - runs when nothing else to do
    Idle,
    /// Background tasks
    Low,
    /// Default priority for user tasks
    Normal,
    /// System services
    High,
    /// Critical system tasks
    Realtime,
}

impl Priority {
    /// The rank of a priority: higher ranks run first.
    pub open spec fn level(self) -> int {
        match self {
            Priority::Idle => 0,
            Priority::Low => 1,
            Priority::Normal => 2,
            Priority::High => 3,
            Priority::Realtime => 4,
        }
    }

    /// The rank of this priority (0 = idle .. 4 = realtime).
    pub fn rank(&self) -> (r: u8)
        ensures
            r == self.level(),
    {
        match self {
            Priority::Idle => 0,
            Priority::Low => 1,
            Priority::Normal => 2,
            Priority::High => 3,
            Priority::Realtime => 4,
        }
    }

    pub fn as_str(&self) -> (s: &'static str)
        ensures
            s@ == priority_label(*self)@,
    {
        match self {
            Priority::Idle => "idle",
            Priority::Low => "low",
            Priority::Normal => "normal",
            Priority::High => "high",
            Priority::Realtime => "rt",
        }
    }
}

/// The label of a priority, as `ps` shows it.
pub open spec fn priority_label(p: Priority) -> &'static str {
    match p {
        Priority::Idle => "idle",
        Priority::Low => "low",
        Priority::Normal => "normal",
        Priority::High => "high",
        Priority::Realtime => "rt",
    }
}

/// Identifies a task's entry point; the caller keeps the table that maps it to code.
pub type TaskEntry = usize;

/// Task Control Block - represents a schedulable unit of execution
pub struct Task {
    /// Unique process identifier
    pub pid: Pid,
    /// Human-readable task name
    pub name: String,
    /// Current task state
    pub state: TaskState,
    /// Task priority
    pub priority: Priority,
    /// Hart affinity (None = can run on any hart)
    pub hart_affinity: Option<usize>,
    /// The hart executing the task now, or `NO_HART`
    pub current_hart: usize,
    /// The hart whose queue the task is on
    pub assigned_hart: usize,
    /// Task entry point
    pub entry: TaskEntry,
    /// Creation timestamp (ms since boot)
    pub created_at: u64,
    /// Total CPU time consumed (ms)
    pub cpu_time: u64,
    /// Exit code (valid when Zombie)
    pub exit_code: usize,
    /// Whether this is a daemon (long-running service)
    pub is_daemon: bool,
    /// Whether task should restart on exit
    pub restart_on_exit: bool,
}

/// Task information for reporting (does not hold references)
pub struct TaskInfo {
    pub pid: Pid,
    pub name: String,
    pub state: TaskState,
    pub priority: Priority,
    pub hart: Option<usize>,
    pub cpu_time: u64,
    pub uptime: u64,
}

/// The hart a task runs on, as reported: none when the marker is stored.
pub open spec fn hart_of(current_hart: usize) -> Option<usize> {
    if current_hart == NO_HART {
        None
    } else {
        Some(current_hart)
    }
}

impl Task {
    /// Create a new task, created at time `now` (ms since boot).
    pub fn new(pid: Pid, name: &str, entry: TaskEntry, priority: Priority, now: u64) -> (t: Task)
        ensures
            t.pid == pid,
            t.name@ == name@,
            t.state == TaskState::Ready,
            t.priority == priority,
            t.hart_affinity is None,
            t.current_hart == NO_HART,
            t.assigned_hart == 0,
            t.entry == entry,
            t.created_at == now,
            t.cpu_time == 0,
            t.exit_code == 0,
            !t.is_daemon,
            !t.restart_on_exit,
    {
        Task {
            pid,
            name: name.to_owned(),
            state: TaskState::Ready,
            priority,
            hart_affinity: None,
            current_hart: NO_HART,
            assigned_hart: 0,
            entry,
            created_at: now,
            cpu_time: 0,
            exit_code: 0,
            is_daemon: false,
            restart_on_exit: false,
        }
    }

    /// Create a daemon task (long-running service)
    pub fn new_daemon(pid: Pid, name: &str, entry: TaskEntry, priority: Priority, now: u64) -> (t: Task)
        ensures
            t.pid == pid,
            t.name@ == name@,
            t.state == TaskState::Ready,
            t.priority == priority,
            t.hart_affinity is None,
            t.current_hart == NO_HART,
            t.assigned_hart == 0,
            t.entry == entry,
            t.created_at == now,
            t.cpu_time == 0,
            t.exit_code == 0,
            t.is_daemon,
            t.restart_on_exit,
    {
        let mut task = Self::new(pid, name, entry, priority, now);
        task.is_daemon = true;
        task.restart_on_exit = true;
        task
    }

    /// Get current task state
    pub fn get_state(&self) -> (s: TaskState)
        ensures
            s == self.state,
    {
        self.state
    }

    /// Set task state
    pub fn set_state(&mut self, state: TaskState)
        ensures
            *final(self) == (Task { state, ..*old(self) }),
    {
        self.state = state;
    }

    /// Check if task is runnable
    pub fn is_runnable(&self) -> (b: bool)
        ensures
            b == (self.state == TaskState::Ready),
    {
        match self.state {
            TaskState::Ready => true,
            _ => false,
        }
    }

    /// Mark task as running on specified hart
    pub fn mark_running(&mut self, hart_id: usize)
        ensures
            *final(self) == (Task { current_hart: hart_id, state: TaskState::Running, ..*old(self) }),
    {
        self.current_hart = hart_id;
        self.state = TaskState::Running;
    }

    /// Mark task as finished with exit code
    pub fn mark_finished(&mut self, exit_code: usize)
        ensures
            *final(self) == (Task {
                exit_code,
                current_hart: NO_HART,
                state: TaskState::Zombie,
                ..*old(self)
            }),
    {
        self.exit_code = exit_code;
        self.current_hart = NO_HART;
        self.state = TaskState::Zombie;
    }

    /// Add CPU time (the counter wraps around like the hardware counter it mirrors)
    pub fn add_cpu_time(&mut self, ms: u64)
        ensures
            *final(self) == (Task {
                cpu_time: vstd::wrapping::u64_specs::wrapping_add(old(self).cpu_time, ms),
                ..*old(self)
            }),
    {
        self.cpu_time = self.cpu_time.wrapping_add(ms);
    }

    /// Get total CPU time consumed
    pub fn get_cpu_time(&self) -> (t: u64)
        ensures
            t == self.cpu_time,
    {
        self.cpu_time
    }

    /// Get current hart (if running)
    pub fn get_current_hart(&self) -> (h: Option<usize>)
        ensures
            h == hart_of(self.current_hart),
    {
        if self.current_hart == NO_HART {
            None
        } else {
            Some(self.current_hart)
        }
    }

    /// Get a snapshot of task info for reporting
    pub fn info(&self, current_time: u64) -> (i: TaskInfo)
        ensures
            i.pid == self.pid,
            i.name@ == self.name@,
            i.state == self.state,
            i.priority == self.priority,
            i.hart == hart_of(self.current_hart),
            i.cpu_time == self.cpu_time,
            i.uptime == current_time.saturating_sub(self.created_at),
    {
        TaskInfo {
            pid: self.pid,
            name: self.name.clone(),
            state: self.get_state(),
            priority: self.priority,
            hart: self.get_current_hart(),
            cpu_time: self.get_cpu_time(),
            uptime: current_time.saturating_sub(self.created_at),
        }
    }
}


// ═══════════════════════════════════════════════════════════════════════════════
// TASK TABLE - the registry of live tasks, in pid order
// ═══════════════════════════════════════════════════════════════════════════════

/// The pids of a task sequence ascend strictly.
pub open spec fn pids_ascending(s: Seq<Task>) -> bool {
    forall|i: int, j: int| 0 <= i < j < s.len() ==> s[i].pid < s[j].pid
}

/// A task sequence in which every task whose pid is in `pids` is marked ready.
pub open spec fn ready_marked(s: Seq<Task>, pids: Seq<Pid>) -> Seq<Task> {
    Seq::new(
        s.len(),
        |i: int|
            if pids.contains(s[i].pid) {
                Task { state: TaskState::Ready, ..s[i] }
            } else {
                s[i]
            },
    )
}

/// A task sequence in which the task with pid `pid` (if any) has state `state`.
pub open spec fn with_state(s: Seq<Task>, pid: Pid, state: TaskState) -> Seq<Task> {
    Seq::new(s.len(), |i: int| if s[i].pid == pid { Task { state, ..s[i] } } else { s[i] })
}

/// Global task registry (PID -> Task), kept in ascending pid order.
pub struct TaskTable {
    pub tasks: Vec<Task>,
}

impl View for TaskTable {
    type V = Seq<Task>;

    open spec fn view(&self) -> Seq<Task> {
        self.tasks@
    }
}

impl TaskTable {
    /// The table's pids ascend strictly (so each pid occurs once).
    pub open spec fn wf(&self) -> bool {
        pids_ascending(self@)
    }

    /// Whether the table holds a task with this pid.
    pub open spec fn has(&self, pid: Pid) -> bool {
        exists|i: int| 0 <= i < self@.len() && self@[i].pid == pid
    }

    pub fn new() -> (t: TaskTable)
        ensures
            t@ == Seq::<Task>::empty(),
            t.wf(),
    {
        TaskTable { tasks: Vec::new() }
    }

    /// Number of registered tasks.
    pub fn len(&self) -> (n: usize)
        ensures
            n == self@.len(),
    {
        self.tasks.len()
    }

    /// Position of the task with this pid.
    pub fn find(&self, pid: Pid) -> (r: Option<usize>)
        ensures
            match r {
                Some(i) => i < self@.len() && self@[i as int].pid == pid,
                None => !self.has(pid),
            },
    {
        let mut i: usize = 0;
        while i < self.tasks.len()
            invariant
                i <= self@.len(),
                forall|j: int| 0 <= j < i ==> self@[j].pid != pid,
            decreases self@.len() - i,
        {
            if self.tasks[i].pid == pid {
                return Some(i);
            }
            i = i + 1;
        }
        None
    }

    /// Set the state of the task with this pid, if it is registered.
    pub fn set_state_of(&mut self, pid: Pid, state: TaskState)
        ensures
            final(self)@ == with_state(old(self)@, pid, state),
    {
        let ghost s0 = self@;
        let mut i: usize = 0;
        while i < self.tasks.len()
            invariant
                i <= self@.len(),
                self@.len() == s0.len(),
                forall|j: int| 0 <= j < i ==> self@[j] == with_state(s0, pid, state)[j],
                forall|j: int| i <= j < self@.len() ==> self@[j] == s0[j],
            decreases self@.len() - i,
        {
            if self.tasks[i].pid == pid {
                self.tasks[i].state = state;
            }
            i = i + 1;
        }
        assert(self@ =~= with_state(s0, pid, state));
    }

    /// Append a task whose pid is above every registered pid.
    pub fn insert(&mut self, task: Task)
        requires
            old(self).wf(),
            forall|i: int| 0 <= i < old(self)@.len() ==> old(self)@[i].pid < task.pid,
        ensures
            final(self)@ == old(self)@.push(task),
            final(self).wf(),
    {
        self.tasks.push(task);
    }

    /// Remove the task at position `i`.
    pub fn remove_at(&mut self, i: usize) -> (t: Task)
        requires
            old(self).wf(),
            i < old(self)@.len(),
        ensures
            t == old(self)@[i as int],
            final(self)@ == old(self)@.remove(i as int),
            final(self).wf(),
    {
        self.tasks.remove(i)
    }
}

/// Marking one more pid ready extends the set of marked pids by it.
pub proof fn lemma_ready_marked_push(s: Seq<Task>, pids: Seq<Pid>, p: Pid)
    ensures
        with_state(ready_marked(s, pids), p, TaskState::Ready) == ready_marked(s, pids.push(p)),
{
    assert forall|i: int| 0 <= i < s.len() implies (pids.push(p).contains(s[i].pid) <==> (
    pids.contains(s[i].pid) || s[i].pid == p)) by {
        if pids.push(p).contains(s[i].pid) {
            let k = choose|k: int| 0 <= k < pids.push(p).len() && pids.push(p)[k] == s[i].pid;
            if k < pids.len() {
                assert(pids[k] == s[i].pid);
            }
        }
        if pids.contains(s[i].pid) {
            let k = choose|k: int| 0 <= k < pids.len() && pids[k] == s[i].pid;
            assert(pids.push(p)[k] == s[i].pid);
        }
        if s[i].pid == p {
            assert(pids.push(p)[pids.len() as int] == p);
        }
    }
    assert(with_state(ready_marked(s, pids), p, TaskState::Ready) =~= ready_marked(s, pids.push(p)));
}

/// Marking no pids leaves a task sequence as it was.
pub proof fn lemma_ready_marked_empty(s: Seq<Task>)
    ensures
        ready_marked(s, Seq::empty()) == s,
{
    assert(ready_marked(s, Seq::empty()) =~= s);
}


// ═══════════════════════════════════════════════════════════════════════════════
// WAIT QUEUE - Event-based task blocking
// ═══════════════════════════════════════════════════════════════════════════════

/// Event types that tasks can wait on
#[derive(Clone, Copy, PartialEq, Eq, Debug, Structural)]
pub enum WaitEvent {
    /// Timer expired
    Timer,
    /// I/O available (network, block device)
    IoReady,
    /// IPC message available
    IpcMessage,
    /// Child process exited
    ChildExit,
    /// Generic signal
    Signal,
}

/// A waiter entry in a wait queue
#[derive(Clone, Copy, Debug)]
pub struct Waiter {
    /// PID of the waiting task
    pub pid: Pid,
    /// Event being waited on
    pub event: WaitEvent,
    /// Optional timeout (absolute timestamp in ms)
    pub timeout: Option<u64>,
    /// Data associated with the wait (e.g., channel ID for IPC)
    pub data: u64,
}

/// Which waiters a wake-up takes out of a queue.
#[derive(Clone, Copy)]
pub enum WakeFilter {
    /// Every waiter
    All,
    /// Waiters on this event
    Event(WaitEvent),
    /// Waiters whose timeout has been reached at this time (ms)
    TimedOut(u64),
    /// IPC waiters on this channel
    Channel(u64),
}

/// Whether a wake-up with this filter takes the waiter.
pub open spec fn selects(f: WakeFilter, w: Waiter) -> bool {
    match f {
        WakeFilter::All => true,
        WakeFilter::Event(e) => w.event == e,
        WakeFilter::TimedOut(now) => match w.timeout {
            Some(t) => now >= t,
            None => false,
        },
        WakeFilter::Channel(c) => w.event == WaitEvent::IpcMessage && w.data == c,
    }
}

impl WakeFilter {
    pub fn matches(&self, w: &Waiter) -> (b: bool)
        ensures
            b == selects(*self, *w),
    {
        match self {
            WakeFilter::All => true,
            WakeFilter::Event(e) => w.event == *e,
            WakeFilter::TimedOut(now) => match w.timeout {
                Some(t) => *now >= t,
                None => false,
            },
            WakeFilter::Channel(c) => w.event == WaitEvent::IpcMessage && w.data == *c,
        }
    }
}

/// The waiters a wake-up with this filter leaves in the queue, in their order.
pub open spec fn kept(s: Seq<Waiter>, f: WakeFilter) -> Seq<Waiter>
    decreases s.len(),
{
    if s.len() == 0 {
        s
    } else {
        let r = kept(s.drop_last(), f);
        if selects(f, s.last()) {
            r
        } else {
            r.push(s.last())
        }
    }
}

/// The pids a wake-up with this filter takes out of the queue, in queue order.
pub open spec fn picked(s: Seq<Waiter>, f: WakeFilter) -> Seq<Pid>
    decreases s.len(),
{
    if s.len() == 0 {
        Seq::empty()
    } else {
        let r = picked(s.drop_last(), f);
        if selects(f, s.last()) {
            r.push(s.last().pid)
        } else {
            r
        }
    }
}

/// The pids of all waiters, in queue order.
pub open spec fn waiter_pids(s: Seq<Waiter>) -> Seq<Pid> {
    s.map_values(|w: Waiter| w.pid)
}

/// A wait queue for blocking tasks until an event occurs
pub struct WaitQueue {
    /// Name for debugging
    pub name: String,
    /// Waiters in FIFO order
    pub waiters: Vec<Waiter>,
    /// Number of wake signals pending
    pub pending_wakes: usize,
}

impl View for WaitQueue {
    type V = Seq<Waiter>;

    open spec fn view(&self) -> Seq<Waiter> {
        self.waiters@
    }
}

impl WaitQueue {
    /// Create a new wait queue
    pub fn new(name: &str) -> (q: WaitQueue)
        ensures
            q@ == Seq::<Waiter>::empty(),
            q.name@ == name@,
    {
        WaitQueue { name: name.to_owned(), waiters: Vec::new(), pending_wakes: 0 }
    }

    /// Add a task to the wait queue
    pub fn wait(&mut self, pid: Pid, event: WaitEvent, timeout: Option<u64>, data: u64)
        ensures
            final(self)@ == old(self)@.push(Waiter { pid, event, timeout, data }),
            final(self).name == old(self).name,
    {
        self.waiters.push(Waiter { pid, event, timeout, data });
    }

    /// Take out every waiter that the filter selects, mark their tasks ready,
    /// and return their pids in queue order.
    pub fn take_matching(&mut self, filter: WakeFilter, tasks: &mut TaskTable) -> (woken: Vec<Pid>)
        ensures
            final(self)@ == kept(old(self)@, filter),
            woken@ == picked(old(self)@, filter),
            final(tasks)@ == ready_marked(old(tasks)@, woken@),
            final(self).name == old(self).name,
    {
        let ghost s0 = self@;
        let ghost t0 = tasks@;
        let mut remaining: Vec<Waiter> = Vec::new();
        let mut woken: Vec<Pid> = Vec::new();
        let mut i: usize = 0;
        proof {
            lemma_ready_marked_empty(t0);
        }
        while i < self.waiters.len()
            invariant
                i <= s0.len(),
                self@ == s0,
                remaining@ == kept(s0.take(i as int), filter),
                woken@ == picked(s0.take(i as int), filter),
                tasks@ == ready_marked(t0, woken@),
            decreases s0.len() - i,
        {
            let w = self.waiters[i];
            assert(s0.take(i + 1).drop_last() =~= s0.take(i as int));
            assert(s0.take(i + 1).last() == s0[i as int]);
            if filter.matches(&w) {
                tasks.set_state_of(w.pid, TaskState::Ready);
                proof {
                    lemma_ready_marked_push(t0, woken@, w.pid);
                }
                woken.push(w.pid);
            } else {
                remaining.push(w);
            }
            i = i + 1;
        }
        assert(s0.take(s0.len() as int) =~= s0);
        self.waiters = remaining;
        woken
    }

    /// Wake one waiter (FIFO order)
    /// Returns the PID of the woken task, if any
    pub fn wake_one(&mut self, tasks: &mut TaskTable) -> (r: Option<Pid>)
        ensures
            old(self)@.len() == 0 ==> r is None && final(self)@ == old(self)@ && final(tasks)@
                == old(tasks)@,
            old(self)@.len() > 0 ==> r == Some(old(self)@[0].pid) && final(self)@ == old(
                self,
            )@.drop_first() && final(tasks)@ == with_state(
                old(tasks)@,
                old(self)@[0].pid,
                TaskState::Ready,
            ),
            final(self).name == old(self).name,
    {
        if self.waiters.len() == 0 {
            return None;
        }
        let waiter = self.waiters.remove(0);
        tasks.set_state_of(waiter.pid, TaskState::Ready);
        Some(waiter.pid)
    }

    /// Wake all waiters
    /// Returns the number of tasks woken
    pub fn wake_all(&mut self, tasks: &mut TaskTable) -> (count: usize)
        ensures
            count == old(self)@.len(),
            final(self)@ == Seq::<Waiter>::empty(),
            final(tasks)@ == ready_marked(old(tasks)@, waiter_pids(old(self)@)),
            final(self).name == old(self).name,
    {
        let ghost s0 = self@;
        let woken = self.take_matching(WakeFilter::All, tasks);
        proof {
            lemma_take_all(s0);
        }
        woken.len()
    }

    /// Wake waiters matching a specific event type
    pub fn wake_event(&mut self, event: WaitEvent, tasks: &mut TaskTable) -> (count: usize)
        ensures
            final(self)@ == kept(old(self)@, WakeFilter::Event(event)),
            count == picked(old(self)@, WakeFilter::Event(event)).len(),
            final(tasks)@ == ready_marked(old(tasks)@, picked(old(self)@, WakeFilter::Event(event))),
            final(self).name == old(self).name,
    {
        let woken = self.take_matching(WakeFilter::Event(event), tasks);
        woken.len()
    }

    /// Check for and remove timed-out waiters
    /// Returns PIDs of timed-out tasks
    pub fn check_timeouts(&mut self, current_time: u64, tasks: &mut TaskTable) -> (r: Vec<Pid>)
        ensures
            final(self)@ == kept(old(self)@, WakeFilter::TimedOut(current_time)),
            r@ == picked(old(self)@, WakeFilter::TimedOut(current_time)),
            final(tasks)@ == ready_marked(old(tasks)@, r@),
            final(self).name == old(self).name,
    {
        self.take_matching(WakeFilter::TimedOut(current_time), tasks)
    }

    /// Get number of waiters
    pub fn len(&self) -> (n: usize)
        ensures
            n == self@.len(),
    {
        self.waiters.len()
    }

    /// Check if queue is empty
    pub fn is_empty(&self) -> (b: bool)
        ensures
            b == (self@.len() == 0),
    {
        self.waiters.len() == 0
    }

    /// Check if a specific PID is waiting
    pub fn is_waiting(&self, pid: Pid) -> (b: bool)
        ensures
            b == exists|i: int| 0 <= i < self@.len() && self@[i].pid == pid,
    {
        let mut i: usize = 0;
        while i < self.waiters.len()
            invariant
                i <= self@.len(),
                forall|j: int| 0 <= j < i ==> self@[j].pid != pid,
            decreases self@.len() - i,
        {
            if self.waiters[i].pid == pid {
                return true;
            }
            i = i + 1;
        }
        false
    }
}

/// Taking every waiter leaves none and takes all their pids.
pub proof fn lemma_take_all(s: Seq<Waiter>)
    ensures
        kept(s, WakeFilter::All) == Seq::<Waiter>::empty(),
        picked(s, WakeFilter::All) == waiter_pids(s),
    decreases s.len(),
{
    if s.len() > 0 {
        lemma_take_all(s.drop_last());
        assert(waiter_pids(s) =~= waiter_pids(s.drop_last()).push(s.last().pid));
    } else {
        assert(waiter_pids(s) =~= Seq::<Pid>::empty());
    }
}

/// Every waiter ends up either kept or picked: together they account for the whole queue.
pub proof fn lemma_kept_picked_partition(s: Seq<Waiter>, f: WakeFilter)
    ensures
        kept(s, f).len() + picked(s, f).len() == s.len(),
    decreases s.len(),
{
    if s.len() > 0 {
        lemma_kept_picked_partition(s.drop_last(), f);
    }
}

/// No waiter that a filter keeps is one it selects.
pub proof fn lemma_kept_unselected(s: Seq<Waiter>, f: WakeFilter)
    ensures
        forall|i: int| 0 <= i < kept(s, f).len() ==> !selects(f, #[trigger] kept(s, f)[i]),
    decreases s.len(),
{
    if s.len() > 0 {
        lemma_kept_unselected(s.drop_last(), f);
        let r = kept(s.drop_last(), f);
        if !selects(f, s.last()) {
            assert forall|i: int| 0 <= i < kept(s, f).len() implies !selects(
                f,
                #[trigger] kept(s, f)[i],
            ) by {
                if i < r.len() {
                    assert(kept(s, f)[i] == r[i]);
                }
            }
        }
    }
}

// ═══════════════════════════════════════════════════════════════════════════════
// GLOBAL WAIT QUEUES
// ═══════════════════════════════════════════════════════════════════════════════

/// The kernel's three wait queues (timer, I/O, IPC); each is absent until initialized.
pub struct WaitQueues {
    pub timer: Option<WaitQueue>,
    pub io: Option<WaitQueue>,
    pub ipc: Option<WaitQueue>,
}

impl WaitQueues {
    /// No queue initialized yet.
    pub fn new() -> (q: WaitQueues)
        ensures
            q.timer is None,
            q.io is None,
            q.ipc is None,
    {
        WaitQueues { timer: None, io: None, ipc: None }
    }
}

/// Initialize global wait queues
pub fn init_wait_queues(queues: &mut WaitQueues)
    ensures
        final(queues).timer matches Some(q) && q@.len() == 0 && q.name@ == "timer"@,
        final(queues).io matches Some(q) && q@.len() == 0 && q.name@ == "io"@,
        final(queues).ipc matches Some(q) && q@.len() == 0 && q.name@ == "ipc"@,
{
    queues.timer = Some(WaitQueue::new("timer"));
    queues.io = Some(WaitQueue::new("io"));
    queues.ipc = Some(WaitQueue::new("ipc"));
}

/// Helper to add a task to the timer wait queue, with a deadline `timeout_ms` after `now`.
pub fn wait_timer(queues: &mut WaitQueues, pid: Pid, timeout_ms: u64, now: u64)
    requires
        now + timeout_ms <= u64::MAX,
    ensures
        final(queues).io == old(queues).io,
        final(queues).ipc == old(queues).ipc,
        match old(queues).timer {
            Some(q) => final(queues).timer matches Some(q2) && q2@ == q@.push(
                Waiter {
                    pid,
                    event: WaitEvent::Timer,
                    timeout: Some((now + timeout_ms) as u64),
                    data: 0,
                },
            ) && q2.name == q.name,
            None => final(queues).timer is None,
        },
{
    let deadline = now + timeout_ms;
    if let Some(wq) = &mut queues.timer {
        wq.wait(pid, WaitEvent::Timer, Some(deadline), 0);
    }
}

/// Helper to add a task to the I/O wait queue
pub fn wait_io(queues: &mut WaitQueues, pid: Pid, timeout: Option<u64>)
    ensures
        final(queues).timer == old(queues).timer,
        final(queues).ipc == old(queues).ipc,
        match old(queues).io {
            Some(q) => final(queues).io matches Some(q2) && q2@ == q@.push(
                Waiter { pid, event: WaitEvent::IoReady, timeout, data: 0 },
            ) && q2.name == q.name,
            None => final(queues).io is None,
        },
{
    if let Some(wq) = &mut queues.io {
        wq.wait(pid, WaitEvent::IoReady, timeout, 0);
    }
}

/// Helper to wake tasks waiting for I/O
pub fn wake_io(queues: &mut WaitQueues, tasks: &mut TaskTable) -> (count: usize)
    ensures
        final(queues).timer == old(queues).timer,
        final(queues).ipc == old(queues).ipc,
        match old(queues).io {
            Some(q) => final(queues).io matches Some(q2) && q2@.len() == 0 && q2.name == q.name
                && count == q@.len() && final(tasks)@ == ready_marked(old(tasks)@, waiter_pids(q@)),
            None => final(queues).io is None && count == 0 && final(tasks)@ == old(tasks)@,
        },
{
    if let Some(wq) = &mut queues.io {
        wq.wake_all(tasks)
    } else {
        0
    }
}

/// Helper to add a task to the IPC wait queue
pub fn wait_ipc(queues: &mut WaitQueues, pid: Pid, channel_id: u64, timeout: Option<u64>)
    ensures
        final(queues).timer == old(queues).timer,
        final(queues).io == old(queues).io,
        match old(queues).ipc {
            Some(q) => final(queues).ipc matches Some(q2) && q2@ == q@.push(
                Waiter { pid, event: WaitEvent::IpcMessage, timeout, data: channel_id },
            ) && q2.name == q.name,
            None => final(queues).ipc is None,
        },
{
    if let Some(wq) = &mut queues.ipc {
        wq.wait(pid, WaitEvent::IpcMessage, timeout, channel_id);
    }
}

/// Helper to wake tasks waiting for IPC on a specific channel
pub fn wake_ipc(queues: &mut WaitQueues, channel_id: u64, tasks: &mut TaskTable) -> (count: usize)
    ensures
        final(queues).timer == old(queues).timer,
        final(queues).io == old(queues).io,
        match old(queues).ipc {
            Some(q) => final(queues).ipc matches Some(q2) && q2@ == kept(
                q@,
                WakeFilter::Channel(channel_id),
            ) && q2.name == q.name && count == picked(q@, WakeFilter::Channel(channel_id)).len()
                && final(tasks)@ == ready_marked(
                old(tasks)@,
                picked(q@, WakeFilter::Channel(channel_id)),
            ),
            None => final(queues).ipc is None && count == 0 && final(tasks)@ == old(tasks)@,
        },
{
    if let Some(wq) = &mut queues.ipc {
        let woken = wq.take_matching(WakeFilter::Channel(channel_id), tasks);
        woken.len()
    } else {
        0
    }
}

/// Check all wait queues for timeouts (call periodically)
pub fn check_all_timeouts(queues: &mut WaitQueues, current_time: u64, tasks: &mut TaskTable)
    ensures
        match old(queues).timer {
            Some(q) => final(queues).timer matches Some(q2) && q2@ == kept(
                q@,
                WakeFilter::TimedOut(current_time),
            ),
            None => final(queues).timer is None,
        },
        match old(queues).io {
            Some(q) => final(queues).io matches Some(q2) && q2@ == kept(
                q@,
                WakeFilter::TimedOut(current_time),
            ),
            None => final(queues).io is None,
        },
        match old(queues).ipc {
            Some(q) => final(queues).ipc matches Some(q2) && q2@ == kept(
                q@,
                WakeFilter::TimedOut(current_time),
            ),
            None => final(queues).ipc is None,
        },
{
    if let Some(wq) = &mut queues.timer {
        let _ = wq.check_timeouts(current_time, tasks);
    }
    if let Some(wq) = &mut queues.io {
        let _ = wq.check_timeouts(current_time, tasks);
    }
    if let Some(wq) = &mut queues.ipc {
        let _ = wq.check_timeouts(current_time, tasks);
    }
}

} // verus!
