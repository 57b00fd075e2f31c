//! The system monitor daemon: a status line for sysmond's log every ten seconds.
use vstd::prelude::*;
use crate::fmt::{dec_text, push_bytes, push_decimal, push_signed_decimal, signed_dec_text};

verus! {

/// The first line waits this long after boot.
pub const SYSMOND_START_DELAY_MS: i64 = 15000;
/// A status line is written this often.
pub const SYSMOND_PERIOD_MS: i64 = 10000;
/// The service skips calling the tick until this much time has passed.
pub const SYSMOND_SERVICE_PERIOD_MS: i64 = 9000;

pub struct SysmondState {
    pub last_run: i64,
    pub tick: usize,
    pub initialized: bool,
}

impl SysmondState {
    pub fn new() -> (s: Self)
        ensures
            s.last_run == 0,
            s.tick == 0,
            !s.initialized,
    {
        SysmondState { last_run: 0, tick: 0, initialized: false }
    }
}

/// What a tick does.
pub enum SysmondTick {
    /// Nothing yet.
    Wait,
    /// First run: log this line.
    Started(Vec<u8>),
    /// Time for status line number `tick` (the caller reaps zombies and counts
    /// processes, then formats it with `status_line`).
    Report { tick: usize },
}

/// "[now] sysmond: started"
pub open spec fn started_line(now: int) -> Seq<u8> {
    seq![0x5bu8] + signed_dec_text(now) + seq![0x5du8, 0x20, 0x73, 0x79, 0x73, 0x6d, 0x6f, 0x6e, 0x64, 0x3a,
        0x20, 0x73, 0x74, 0x61, 0x72, 0x74, 0x65, 0x64]
}

/// The schedule at `now`: the first run fifteen seconds after boot, then a
/// report every ten seconds.
pub fn sysmond_tick(st: &mut SysmondState, now: i64) -> (r: SysmondTick)
    requires
        old(st).initialized ==> i64::MIN <= now - old(st).last_run <= i64::MAX,
        old(st).tick < usize::MAX,
    ensures
        !old(st).initialized && now < SYSMOND_START_DELAY_MS ==> r is Wait && *final(st) == *old(st),
        !old(st).initialized && now >= SYSMOND_START_DELAY_MS ==> final(st).initialized && final(st).last_run
            == now && final(st).tick == old(st).tick && (r matches SysmondTick::Started(l) && l@
            == started_line(now as int)),
        old(st).initialized && now - old(st).last_run < SYSMOND_PERIOD_MS ==> r is Wait && *final(st)
            == *old(st),
        old(st).initialized && now - old(st).last_run >= SYSMOND_PERIOD_MS ==> final(st).initialized
            && final(st).last_run == now && final(st).tick == old(st).tick + 1 && r == (SysmondTick::Report {
            tick: final(st).tick,
        }),
{
    if !st.initialized {
        if now < SYSMOND_START_DELAY_MS {
            return SysmondTick::Wait;
        }
        st.initialized = true;
        st.last_run = now;
        let mut line: Vec<u8> = Vec::new();
        line.push(0x5b);
        push_signed_decimal(&mut line, now);
        push_bytes(&mut line, &[0x5du8, 0x20, 0x73, 0x79, 0x73, 0x6d, 0x6f, 0x6e, 0x64, 0x3a, 0x20, 0x73, 0x74, 0x61, 0x72, 0x74, 0x65, 0x64]);
        assert(line@ =~= started_line(now as int));
        return SysmondTick::Started(line);
    }
    if now - st.last_run < SYSMOND_PERIOD_MS {
        return SysmondTick::Wait;
    }
    st.last_run = now;
    st.tick = st.tick + 1;
    SysmondTick::Report { tick: st.tick }
}

/// "[now] sysmond[tick]: procs=P queued=Q harts=H reaped=R"
pub open spec fn status_text(now: int, tick: nat, procs: nat, queued: nat, harts: nat, reaped: nat) -> Seq<u8> {
    seq![0x5bu8] + signed_dec_text(now) + seq![0x5du8, 0x20, 0x73, 0x79, 0x73, 0x6d, 0x6f, 0x6e, 0x64, 0x5b]
        + dec_text(tick) + seq![0x5du8, 0x3a, 0x20, 0x70, 0x72, 0x6f, 0x63, 0x73, 0x3d] + dec_text(procs)
        + seq![0x20u8, 0x71, 0x75, 0x65, 0x75, 0x65, 0x64, 0x3d] + dec_text(queued) + seq![0x20u8, 0x68,
        0x61, 0x72, 0x74, 0x73, 0x3d] + dec_text(harts) + seq![0x20u8, 0x72, 0x65, 0x61, 0x70, 0x65,
        0x64, 0x3d] + dec_text(reaped)
}

/// The status line.
pub fn status_line(now: i64, tick: usize, procs: usize, queued: usize, harts: usize, reaped: usize) -> (l: Vec<u8>)
    ensures
        l@ == status_text(now as int, tick as nat, procs as nat, queued as nat, harts as nat, reaped as nat),
{
    let mut line: Vec<u8> = Vec::new();
    line.push(0x5b);
    push_signed_decimal(&mut line, now);
    push_bytes(&mut line, &[0x5du8, 0x20, 0x73, 0x79, 0x73, 0x6d, 0x6f, 0x6e, 0x64, 0x5b]);
    push_decimal(&mut line, tick as u64);
    push_bytes(&mut line, &[0x5du8, 0x3a, 0x20, 0x70, 0x72, 0x6f, 0x63, 0x73, 0x3d]);
    push_decimal(&mut line, procs as u64);
    push_bytes(&mut line, &[0x20u8, 0x71, 0x75, 0x65, 0x75, 0x65, 0x64, 0x3d]);
    push_decimal(&mut line, queued as u64);
    push_bytes(&mut line, &[0x20u8, 0x68, 0x61, 0x72, 0x74, 0x73, 0x3d]);
    push_decimal(&mut line, harts as u64);
    push_bytes(&mut line, &[0x20u8, 0x72, 0x65, 0x61, 0x70, 0x65, 0x64, 0x3d]);
    push_decimal(&mut line, reaped as u64);
    assert(line@ =~= status_text(now as int, tick as nat, procs as nat, queued as nat, harts as nat, reaped as nat));
    line
}

/// Whether the service calls the tick at `now`: always before the first
/// run, afterwards once nine seconds have passed since the last one.
pub fn sysmond_service(st: &SysmondState, now: i64) -> (run: bool)
    requires
        st.initialized ==> i64::MIN <= now - st.last_run <= i64::MAX,
    ensures
        run == !(st.initialized && now - st.last_run < SYSMOND_SERVICE_PERIOD_MS),
{
    !(st.initialized && now - st.last_run < SYSMOND_SERVICE_PERIOD_MS)
}

} // verus!
