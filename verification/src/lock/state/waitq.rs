//! Wait queue state for blocking tasks until events occur.
use vstd::prelude::*;
use crate::task::{kept, picked, ready_marked, waiter_pids, with_state, Pid, TaskState, TaskTable, WaitEvent, WaitQueue, WakeFilter, Waiter};

verus! {

/// A wait queue for blocking tasks until an event occurs; waking marks the woken tasks ready in
/// the task table.
pub struct WaitQueueState {
    pub queue: WaitQueue,
}

impl View for WaitQueueState {
    type V = Seq<Waiter>;

    open spec fn view(&self) -> Seq<Waiter> {
        self.queue@
    }
}

impl WaitQueueState {
    /// Create a new wait queue
    pub fn new(name: &str) -> (q: WaitQueueState)
        ensures
            q@ == Seq::<Waiter>::empty(),
            q.queue.name@ == name@,
    {
        WaitQueueState { queue: WaitQueue::new(name) }
    }

    /// Add a task to the wait queue
    pub fn wait(&mut self, pid: Pid, event: WaitEvent, timeout: Option<u64>, data: u64)
        ensures
            final(self)@ == old(self)@.push(Waiter { pid, event, timeout, data }),
            final(self).queue.name == old(self).queue.name,
    {
        self.queue.wait(pid, event, timeout, data);
    }

    /// Wake one waiter (FIFO order); returns the PID of the woken task, if any
    pub fn wake_one(&mut self, tasks: &mut TaskTable) -> (r: Option<Pid>)
        ensures
            old(self)@.len() == 0 ==> r is None && final(self)@ == old(self)@ && final(tasks)@
                == old(tasks)@,
            old(self)@.len() > 0 ==> r == Some(old(self)@[0].pid) && final(self)@ == old(
                self,
            )@.drop_first() && final(tasks)@ == with_state(
                old(tasks)@,
                old(self)@[0].pid,
                TaskState::Ready,
            ),
    {
        self.queue.wake_one(tasks)
    }

    /// Wake all waiters; returns the number of tasks woken
    pub fn wake_all(&mut self, tasks: &mut TaskTable) -> (count: usize)
        ensures
            count == old(self)@.len(),
            final(self)@ == Seq::<Waiter>::empty(),
            final(tasks)@ == ready_marked(old(tasks)@, waiter_pids(old(self)@)),
    {
        self.queue.wake_all(tasks)
    }

    /// Wake waiters matching a specific event type
    pub fn wake_event(&mut self, event: WaitEvent, tasks: &mut TaskTable) -> (count: usize)
        ensures
            final(self)@ == kept(old(self)@, WakeFilter::Event(event)),
            count == picked(old(self)@, WakeFilter::Event(event)).len(),
            final(tasks)@ == ready_marked(old(tasks)@, picked(old(self)@, WakeFilter::Event(event))),
    {
        self.queue.wake_event(event, tasks)
    }

    /// Check for and remove timed-out waiters; returns PIDs of timed-out tasks
    pub fn check_timeouts(&mut self, current_time: u64, tasks: &mut TaskTable) -> (r: Vec<Pid>)
        ensures
            final(self)@ == kept(old(self)@, WakeFilter::TimedOut(current_time)),
            r@ == picked(old(self)@, WakeFilter::TimedOut(current_time)),
            final(tasks)@ == ready_marked(old(tasks)@, r@),
    {
        self.queue.check_timeouts(current_time, tasks)
    }

    /// Get number of waiters
    pub fn len(&self) -> (n: usize)
        ensures
            n == self@.len(),
    {
        self.queue.len()
    }

    /// Check if queue is empty
    pub fn is_empty(&self) -> (b: bool)
        ensures
            b == (self@.len() == 0),
    {
        self.queue.is_empty()
    }

    /// Check if a specific PID is waiting
    pub fn is_waiting(&self, pid: Pid) -> (b: bool)
        ensures
            b == exists|i: int| 0 <= i < self@.len() && self@[i].pid == pid,
    {
        self.queue.is_waiting(pid)
    }
}

} // verus!
