//! Kernel-wide performance counters.
//!
//! Counter order is ABI: userspace indexes the snapshot array by these ids,
//! so only append new counters, never reorder.
use vstd::prelude::*;

verus! {

/// Scheduler: processes picked and run
pub const SCHED_PICKS: usize = 0;
/// Scheduler: successful work steals
pub const SCHED_STEALS: usize = 1;
/// Scheduler: steal attempts that found nothing
pub const SCHED_STEAL_MISSES: usize = 2;
/// Scheduler: daemon requeues
pub const SCHED_REQUEUES: usize = 3;
/// Scheduler: cross-hart migrations from load balancing
pub const SCHED_MIGRATIONS: usize = 4;
/// IPIs sent between harts
pub const IPIS_SENT: usize = 5;
/// io_router: requests submitted by secondary harts
pub const IO_REQUESTS: usize = 6;
/// io_router: requests dispatched on hart 0
pub const IO_DISPATCHED: usize = 7;
/// Heap: allocations
pub const HEAP_ALLOCS: usize = 8;
/// Heap: frees
pub const HEAP_FREES: usize = 9;
/// Heap: total bytes allocated (cumulative)
pub const HEAP_ALLOC_BYTES: usize = 10;
/// Log lines pushed to the kernel log buffer
pub const LOG_LINES: usize = 11;
/// gpuid service ticks (total scheduler invocations)
pub const GPUID_TICKS: usize = 12;
/// gpuid ticks that did real work (input, render, or flush)
pub const GPUID_ACTIVE_TICKS: usize = 13;
/// Display frames flushed
pub const FRAMES_FLUSHED: usize = 14;
/// Total dirty pixels copied across all flushes
pub const DIRTY_PIXELS: usize = 15;
/// Timer interrupts handled
pub const TIMER_IRQS: usize = 16;
/// Syscalls handled
pub const SYSCALLS: usize = 17;
/// Idle WFI entries in hart_loop
pub const IDLE_WFI: usize = 18;
/// Number of counters
pub const COUNT: usize = 19;

/// The kernel's counters; each counts modulo 2^64, like the atomics it mirrors.
pub struct PerfCounters {
    pub counters: Vec<u64>,
}

impl View for PerfCounters {
    type V = Seq<u64>;

    open spec fn view(&self) -> Seq<u64> {
        self.counters@
    }
}

impl PerfCounters {
    /// One slot per counter id.
    pub open spec fn wf(&self) -> bool {
        self@.len() == COUNT
    }

    /// All counters zero.
    pub fn new() -> (p: PerfCounters)
        ensures
            p.wf(),
            p@ == Seq::new(COUNT as nat, |i: int| 0u64),
    {
        PerfCounters { counters: vec![0u64; COUNT] }
    }
}

/// Increment a counter by one.
pub fn inc(perf: &mut PerfCounters, counter: usize)
    requires
        old(perf).wf(),
        counter < COUNT,
    ensures
        final(perf)@ == old(perf)@.update(
            counter as int,
            vstd::wrapping::u64_specs::wrapping_add(old(perf)@[counter as int], 1),
        ),
        final(perf).wf(),
{
    let v = perf.counters[counter];
    perf.counters.set(counter, v.wrapping_add(1));
}

/// Add an arbitrary amount to a counter.
pub fn add(perf: &mut PerfCounters, counter: usize, n: u64)
    requires
        old(perf).wf(),
        counter < COUNT,
    ensures
        final(perf)@ == old(perf)@.update(
            counter as int,
            vstd::wrapping::u64_specs::wrapping_add(old(perf)@[counter as int], n),
        ),
        final(perf).wf(),
{
    let v = perf.counters[counter];
    perf.counters.set(counter, v.wrapping_add(n));
}

/// Read one counter.
pub fn get(perf: &PerfCounters, counter: usize) -> (v: u64)
    requires
        perf.wf(),
        counter < COUNT,
    ensures
        v == perf@[counter as int],
{
    perf.counters[counter]
}

/// Copy all counters into `out` (as many as fit); returns how many were written.
pub fn snapshot(perf: &PerfCounters, out: &mut [u64]) -> (n: usize)
    requires
        perf.wf(),
    ensures
        n == if old(out)@.len() < COUNT { old(out)@.len() } else { COUNT as nat },
        final(out)@ == perf@.take(n as int) + old(out)@.skip(n as int),
{
    let n = if out.len() < COUNT { out.len() } else { COUNT };
    let mut i: usize = 0;
    while i < n
        invariant
            perf.wf(),
            i <= n,
            n <= old(out)@.len(),
            n <= COUNT,
            out@.len() == old(out)@.len(),
            forall|k: int| 0 <= k < i ==> out@[k] == perf@[k],
            forall|k: int| i <= k < out@.len() ==> out@[k] == old(out)@[k],
        decreases n - i,
    {
        out[i] = perf.counters[i];
        i = i + 1;
    }
    assert(out@ =~= perf@.take(n as int) + old(out)@.skip(n as int));
    n
}

/// Reset all counters to zero.
pub fn reset(perf: &mut PerfCounters)
    requires
        old(perf).wf(),
    ensures
        final(perf).wf(),
        final(perf)@ == Seq::new(COUNT as nat, |i: int| 0u64),
{
    let mut i: usize = 0;
    while i < COUNT
        invariant
            perf.wf(),
            i <= COUNT,
            forall|k: int| 0 <= k < i ==> perf@[k] == 0,
        decreases COUNT - i,
    {
        perf.counters.set(i, 0);
        i = i + 1;
    }
    assert(perf@ =~= Seq::new(COUNT as nat, |i: int| 0u64));
}

} // verus!
