//! The shell service that runs as a schedulable process on any hart: its
//! first run, the bytes one tick takes, the daemons a single hart ticks in
//! its place, and the prompt.
use vstd::prelude::*;
use vstd::string::StringSliceAdditionalSpecFns;
use crate::fmt::push_bytes;
use crate::services::shelld::{fed_len, feed_input, stepped, ShellAction, ShellState};

verus! {

/// Bytes one tick takes at most.
pub const SHELL_TICK_BYTES: usize = 16;

/// What one tick did: how many received bytes it fed the shell and what
/// each asked for, and whether this hart also ticks the daemons (logging,
/// monitoring, networking, the web server). The GUI tick, `tail -f` and the
/// network poll follow on every hart.
pub struct ShellTick {
    pub fed: usize,
    pub actions: Vec<ShellAction>,
    pub run_daemons: bool,
}

/// One tick: feed up to SHELL_TICK_BYTES received bytes; with at most one
/// hart online the daemons are ticked here too.
pub fn shell_tick(st: &mut ShellState, input: &[u8], harts_online: usize) -> (r: ShellTick)
    requires
        old(st).wf(),
        old(st).history_count + SHELL_TICK_BYTES < usize::MAX,
    ensures
        final(st).wf(),
        r.fed == fed_len(input@, SHELL_TICK_BYTES as int),
        r.fed <= SHELL_TICK_BYTES,
        r.run_daemons == (harts_online <= 1),
        final(st).history_count <= old(st).history_count + r.fed,
        final(st).initialized == old(st).initialized,
        exists|states: Seq<ShellState>|
            #[trigger] stepped(states, input@, r.actions@, r.fed as int) && states[0] == *old(st) && states[r.fed as int]
                == *final(st),
{
    let ghost st0 = *st;
    let (fed, actions) = feed_input(st, input, SHELL_TICK_BYTES);
    let ghost w = choose|states: Seq<ShellState>|
        #[trigger] stepped(states, input@, actions@, fed as int) && states[0] == st0 && states[fed as int] == *st;
    let r = ShellTick { fed, actions, run_daemons: harts_online <= 1 };
    assert(stepped(w, input@, r.actions@, r.fed as int) && w[0] == st0 && w[r.fed as int] == *st);
    r
}

/// What a run of the shell service did: whether it was the first run (then
/// the caller sets up the working directory, records the pid and prints the
/// prompt), and the tick.
pub struct ShellRun {
    pub started: bool,
    pub tick: ShellTick,
}

/// One run of the shell service: start on the first run, then a tick.
pub fn shell_service(st: &mut ShellState, input: &[u8], harts_online: usize) -> (r: ShellRun)
    requires
        old(st).wf(),
        old(st).history_count + SHELL_TICK_BYTES < usize::MAX,
    ensures
        final(st).wf(),
        final(st).initialized,
        r.started == !old(st).initialized,
        r.tick.fed == fed_len(input@, SHELL_TICK_BYTES as int),
        r.tick.run_daemons == (harts_online <= 1),
{
    let started = st.start();
    let tick = shell_tick(st, input, harts_online);
    ShellRun { started, tick }
}

pub open spec fn lit_prompt_open() -> Seq<u8> {
    seq![0x1bu8, 0x5b, 0x31, 0x3b, 0x33, 0x32, 0x6d, 0x62, 0x61, 0x76, 0x79, 0x1b, 0x5b, 0x30, 0x6d, 0x3a, 0x1b, 0x5b, 0x31, 0x3b, 0x33, 0x34, 0x6d]
}

pub open spec fn lit_prompt_close() -> Seq<u8> {
    seq![0x1bu8, 0x5b, 0x30, 0x6d, 0x24, 0x20]
}

/// The prompt: "bavy" in green, a colon, the working directory in blue, "$ ".
pub fn print_prompt(cwd: &str) -> (text: Vec<u8>)
    ensures
        text@ == lit_prompt_open() + cwd.spec_bytes() + lit_prompt_close(),
{
    let mut out: Vec<u8> = Vec::new();
    let a: [u8; 23] = [0x1b, 0x5b, 0x31, 0x3b, 0x33, 0x32, 0x6d, 0x62, 0x61, 0x76, 0x79, 0x1b, 0x5b, 0x30, 0x6d, 0x3a, 0x1b, 0x5b, 0x31, 0x3b, 0x33, 0x34, 0x6d];
    assert(a@ =~= lit_prompt_open());
    push_bytes(&mut out, &a);
    push_bytes(&mut out, cwd.as_bytes());
    let z: [u8; 6] = [0x1b, 0x5b, 0x30, 0x6d, 0x24, 0x20];
    assert(z@ =~= lit_prompt_close());
    push_bytes(&mut out, &z);
    out
}

} // verus!
