//! Shell command state for tracking currently running shell commands.
use vstd::prelude::*;
use vstd::string::StringSliceAdditionalSpecFns;
use crate::text::{copy_prefix, str_from_utf8};

verus! {

/// Longest command name kept: the whole name buffer.
pub const SHELL_CMD_NAME_MAX: usize = 32;

/// State for tracking the currently running shell command's CPU time
pub struct ShellCmdState {
    /// Command name (limited to 32 chars)
    pub name: [u8; 32],
    pub name_len: usize,
    /// PID of the current command
    pub pid: u32,
    /// Start time of current command (ms since boot)
    pub start_time: u64,
    /// Whether a command is currently running
    pub is_running: bool,
    /// Accumulated CPU time for tracking (ms)
    pub accumulated_cpu_time: u64,
    /// Time when this shell session started
    pub session_start: u64,
}

impl ShellCmdState {
    /// The stored name length fits the buffer.
    pub open spec fn wf(&self) -> bool {
        self.name_len <= SHELL_CMD_NAME_MAX
    }

    /// The recorded command name.
    pub open spec fn name_bytes(&self) -> Seq<u8> {
        self.name@.take(self.name_len as int)
    }

    pub fn new() -> (s: ShellCmdState)
        ensures
            s.wf(),
            s.name@ == Seq::new(32, |i: int| 0u8),
            s.name_len == 0,
            s.pid == 0,
            s.start_time == 0,
            !s.is_running,
            s.accumulated_cpu_time == 0,
            s.session_start == 0,
    {
        let s = ShellCmdState {
            name: [0u8; 32],
            name_len: 0,
            pid: 0,
            start_time: 0,
            is_running: false,
            accumulated_cpu_time: 0,
            session_start: 0,
        };
        assert(s.name@ =~= Seq::new(32, |i: int| 0u8));
        s
    }

    /// Start tracking a command: its name (cut to 32 bytes), start time and PID; the CPU time
    /// starts again from zero.
    pub fn start_command(&mut self, cmd_name: &str, current_time: u64, pid: u32)
        ensures
            final(self).wf(),
            ({
                let bytes = cmd_name.spec_bytes();
                let n = if bytes.len() < 32 { bytes.len() } else { 32 };
                &&& final(self).name_len == n
                &&& final(self).name@ == bytes.take(n as int) + old(self).name@.skip(n as int)
                &&& final(self).name_bytes() == bytes.take(n as int)
            }),
            final(self).start_time == current_time,
            final(self).is_running,
            final(self).accumulated_cpu_time == 0,
            final(self).pid == pid,
            final(self).session_start == old(self).session_start,
    {
        let bytes = cmd_name.as_bytes();
        let copy_len = if bytes.len() < 32 { bytes.len() } else { 32 };
        copy_prefix(&mut self.name, bytes, copy_len);
        self.name_len = copy_len;
        self.start_time = current_time;
        self.is_running = true;
        self.accumulated_cpu_time = 0;
        self.pid = pid;
        assert(self.name@.take(copy_len as int) =~= bytes@.take(copy_len as int));
    }

    /// Stop tracking: the time since the start is added (saturating) to the CPU time.
    pub fn end_command(&mut self, current_time: u64)
        ensures
            old(self).is_running ==> *final(self) == (ShellCmdState {
                accumulated_cpu_time: old(self).accumulated_cpu_time.saturating_add(
                    current_time.saturating_sub(old(self).start_time),
                ),
                is_running: false,
                ..*old(self)
            }),
            !old(self).is_running ==> *final(self) == *old(self),
    {
        if self.is_running {
            let elapsed = current_time.saturating_sub(self.start_time);
            self.accumulated_cpu_time = self.accumulated_cpu_time.saturating_add(elapsed);
            self.is_running = false;
        }
    }

    /// The command name, or "unknown" when it is not valid UTF-8.
    pub fn get_name(&self) -> (s: &str)
        requires
            self.wf(),
        ensures
            vstd::utf8::valid_utf8(self.name_bytes()) ==> s.spec_bytes() == self.name_bytes(),
            !vstd::utf8::valid_utf8(self.name_bytes()) ==> s@ == "unknown"@,
    {
        let n = self.name_len;
        match str_from_utf8(&self.name[0..n]) {
            Some(s) => s,
            None => "unknown",
        }
    }
}

} // verus!
