use havy_kernel::lock::state::ping::PingState;
use havy_kernel::perfstat::{self, PerfCounters};
use havy_kernel::scheduler::{QueuedTask, RunQueue, Scheduler};
use havy_kernel::task::{Priority, Task, TaskState, TaskTable, WaitEvent, WaitQueue};

fn q(pid: u32, priority: Priority) -> QueuedTask {
    QueuedTask { pid, priority }
}

#[test]
fn run_queue_orders_by_priority_then_arrival() {
    let mut rq = RunQueue::new();
    rq.enqueue(q(1, Priority::Normal));
    rq.enqueue(q(2, Priority::High));
    rq.enqueue(q(3, Priority::Normal));
    rq.enqueue(q(4, Priority::Idle));
    rq.enqueue(q(5, Priority::Realtime));
    rq.enqueue(q(6, Priority::High));
    let order: Vec<u32> = rq.tasks.iter().map(|t| t.pid).collect();
    assert_eq!(order, vec![5, 2, 6, 1, 3, 4]);
    assert_eq!(rq.len(), 6);
}

#[test]
fn dequeue_skips_tasks_that_are_not_ready() {
    let mut tasks = TaskTable::new();
    tasks.insert(Task::new(1, "a", 0, Priority::High, 0));
    tasks.insert(Task::new(2, "b", 0, Priority::Normal, 0));
    tasks.set_state_of(1, TaskState::Sleeping);
    let mut rq = RunQueue::new();
    rq.enqueue(q(1, Priority::High));
    rq.enqueue(q(2, Priority::Normal));
    let t = rq.dequeue(&tasks).unwrap();
    assert_eq!(t.pid, 2);
    assert_eq!(rq.len(), 1);
    assert!(rq.dequeue(&tasks).is_none());
    assert_eq!(rq.len(), 1);
}

#[test]
fn task_state_codes_roundtrip() {
    for s in [TaskState::Ready, TaskState::Running, TaskState::Sleeping, TaskState::Stopped, TaskState::Zombie] {
        assert_eq!(TaskState::from_usize(s.to_usize()), s);
    }
    assert_eq!(TaskState::from_usize(99), TaskState::Zombie);
    assert_eq!(TaskState::Ready.as_str(), "R");
    assert_eq!(TaskState::Zombie.as_str(), "Z");
}

#[test]
fn scheduler_spawn_and_pick() {
    let mut s = Scheduler::new();
    s.init(1);
    let a = s.spawn("low", 0, Priority::Low, 10);
    let b = s.spawn("high", 0, Priority::High, 10);
    assert_eq!((a, b), (1, 2));
    assert_eq!(s.task_count(), 2);
    assert_eq!(s.pick_next(0), Some(b));
    assert_eq!(s.pick_next(0), Some(a));
    assert_eq!(s.pick_next(0), None);
    assert!(s.kill(a));
    assert!(!s.kill(77));
    assert!(s.get_task(a).is_none());
    assert_eq!(s.task_count(), 1);
    s.finish_task(b, 3, 20);
    assert_eq!(s.get_task(b).unwrap().state, TaskState::Zombie);
    assert_eq!(s.get_task(b).unwrap().exit_code, 3);
    assert_eq!(s.reap_zombies(), 1);
    assert_eq!(s.task_count(), 0);
}

#[test]
fn wait_queue_wakes_in_arrival_order() {
    let mut tasks = TaskTable::new();
    for pid in 1..=3u32 {
        tasks.insert(Task::new(pid, "w", 0, Priority::Normal, 0));
        tasks.set_state_of(pid, TaskState::Sleeping);
    }
    let mut wq = WaitQueue::new("io");
    wq.wait(1, WaitEvent::IoReady, None, 0);
    wq.wait(2, WaitEvent::Timer, Some(100), 0);
    wq.wait(3, WaitEvent::IoReady, Some(50), 0);
    assert_eq!(wq.len(), 3);
    assert_eq!(wq.check_timeouts(60, &mut tasks), vec![3]);
    assert!(!wq.is_waiting(3));
    assert_eq!(wq.wake_event(WaitEvent::IoReady, &mut tasks), 1);
    assert_eq!(tasks.find(1).map(|i| tasks.tasks[i].state), Some(TaskState::Ready));
    assert_eq!(wq.wake_one(&mut tasks), Some(2));
    assert!(wq.is_empty());
    assert_eq!(wq.wake_one(&mut tasks), None);
}

#[test]
fn ping_statistics() {
    let mut p = PingState::new([10, 0, 2, 2], 0);
    p.packets_sent = 4;
    p.record_reply(10);
    p.record_reply(21);
    assert_eq!(p.packets_received, 2);
    assert_eq!(p.min_rtt, 10);
    assert_eq!(p.max_rtt, 21);
    assert_eq!(p.avg_rtt(), 15);
    assert_eq!(p.packet_loss_percent(), 50);
    let fresh = PingState::new([1, 1, 1, 1], 0);
    assert_eq!(fresh.avg_rtt(), 0);
    assert_eq!(fresh.packet_loss_percent(), 0);
}

#[test]
fn perf_counters_count_and_reset() {
    let mut p = PerfCounters::new();
    perfstat::inc(&mut p, perfstat::SYSCALLS);
    perfstat::inc(&mut p, perfstat::SYSCALLS);
    perfstat::add(&mut p, perfstat::TIMER_IRQS, 5);
    assert_eq!(perfstat::get(&p, perfstat::SYSCALLS), 2);
    assert_eq!(perfstat::get(&p, perfstat::TIMER_IRQS), 5);
    let mut out = [0u64; 40];
    assert_eq!(perfstat::snapshot(&p, &mut out), perfstat::COUNT);
    assert_eq!(out[perfstat::SYSCALLS], 2);
    perfstat::reset(&mut p);
    assert_eq!(perfstat::get(&p, perfstat::SYSCALLS), 0);
}
