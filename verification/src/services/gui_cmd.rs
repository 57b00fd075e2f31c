//! Commands the GUI asks the shell to run, and their results.
//!
//! The GUI queues one command at a time; the gui_cmd daemon picks it up and
//! runs it with output capture on; the result (exit code and captured output)
//! waits until the GUI polls for it.
use vstd::prelude::*;
use vstd::string::StringSliceAdditionalSpecFns;
use crate::fmt::push_bytes;
use crate::lock::state::output::{OutputCaptureState, OUTPUT_BUFFER_SIZE};

verus! {

/// Capacity of the GUI's own output buffer.
pub const GUI_CMD_OUTPUT_MAX: usize = 8192;

/// A command for the shell to run.
pub struct GuiCmd {
    pub cmd: Vec<u8>,
    pub args: Vec<u8>,
}

/// How a GUI command ended.
pub struct GuiCmdResult {
    pub exit_code: i32,
    pub output: Vec<u8>,
}

/// Output written for the GUI while capturing (bytes past the capacity are dropped).
pub struct GuiOutputBuffer {
    pub data: Vec<u8>,
    pub capturing: bool,
}

impl GuiOutputBuffer {
    pub open spec fn wf(&self) -> bool {
        self.data@.len() <= GUI_CMD_OUTPUT_MAX
    }

    pub fn new() -> (b: Self)
        ensures
            b.wf(),
            b.data@.len() == 0,
            !b.capturing,
    {
        GuiOutputBuffer { data: Vec::new(), capturing: false }
    }

    /// Start capturing from empty.
    pub fn start_capture(&mut self)
        ensures
            final(self).wf(),
            final(self).data@.len() == 0,
            final(self).capturing,
    {
        self.data = Vec::new();
        self.capturing = true;
    }

    /// Stop capturing and hand out what was captured.
    pub fn stop_capture(&mut self) -> (out: Vec<u8>)
        ensures
            out@ == old(self).data@,
            final(self).data@ == old(self).data@,
            !final(self).capturing,
    {
        self.capturing = false;
        self.data.clone()
    }

    /// Capture bytes, while capturing and while there is room.
    pub fn write(&mut self, bytes: &[u8])
        requires
            old(self).wf(),
        ensures
            final(self).wf(),
            final(self).capturing == old(self).capturing,
            old(self).capturing ==> final(self).data@ == (if old(self).data@.len() + bytes@.len()
                <= GUI_CMD_OUTPUT_MAX {
                old(self).data@ + bytes@
            } else {
                old(self).data@ + bytes@.take(GUI_CMD_OUTPUT_MAX - old(self).data@.len())
            }),
            !old(self).capturing ==> final(self).data@ == old(self).data@,
    {
        if !self.capturing {
            return;
        }
        let room = GUI_CMD_OUTPUT_MAX - self.data.len();
        let n = if bytes.len() < room {
            bytes.len()
        } else {
            room
        };
        let mut i: usize = 0;
        while i < n
            invariant
                n <= bytes@.len(),
                n <= room,
                room == GUI_CMD_OUTPUT_MAX - old(self).data@.len(),
                i <= n,
                self.data@ == old(self).data@ + bytes@.take(i as int),
                self.capturing == old(self).capturing,
            decreases n - i,
        {
            self.data.push(bytes[i]);
            i = i + 1;
            assert(self.data@ =~= old(self).data@ + bytes@.take(i as int));
        }
        assert(bytes@.take(n as int) =~= if old(self).data@.len() + bytes@.len() <= GUI_CMD_OUTPUT_MAX {
            bytes@
        } else {
            bytes@.take(GUI_CMD_OUTPUT_MAX - old(self).data@.len())
        });
    }
}

/// The GUI command machinery.
pub struct GuiCmdState {
    /// The command waiting for the daemon.
    pub pending: Option<GuiCmd>,
    /// The last finished command's result, until polled.
    pub result: Option<GuiCmdResult>,
    /// A command is running.
    pub running: bool,
    /// The daemon has work.
    pub work_available: bool,
    pub output: GuiOutputBuffer,
}

impl GuiCmdState {
    pub fn new() -> (s: Self)
        ensures
            s.pending is None,
            s.result is None,
            !s.running,
            !s.work_available,
            s.output.wf(),
    {
        GuiCmdState {
            pending: None,
            result: None,
            running: false,
            work_available: false,
            output: GuiOutputBuffer::new(),
        }
    }
}

/// Queue a command unless one is running (false: refused). An old result is
/// dropped.
pub fn queue_command(st: &mut GuiCmdState, cmd: &str, args: &str) -> (queued: bool)
    ensures
        queued == !old(st).running,
        !queued ==> final(st).pending == old(st).pending && final(st).result == old(st).result
            && final(st).work_available == old(st).work_available,
        queued ==> final(st).result is None && final(st).work_available && (final(st).pending matches Some(
            c,
        ) && c.cmd@ == cmd.spec_bytes() && c.args@ == args.spec_bytes()),
        final(st).running == old(st).running,
        final(st).output == old(st).output,
{
    if st.running {
        return false;
    }
    st.result = None;
    let mut c: Vec<u8> = Vec::new();
    push_bytes(&mut c, cmd.as_bytes());
    let mut a: Vec<u8> = Vec::new();
    push_bytes(&mut a, args.as_bytes());
    st.pending = Some(GuiCmd { cmd: c, args: a });
    st.work_available = true;
    true
}

pub fn is_running(st: &GuiCmdState) -> (r: bool)
    ensures
        r == st.running,
{
    st.running
}

/// Take the result, if one is waiting.
pub fn poll_result(st: &mut GuiCmdState) -> (r: Option<GuiCmdResult>)
    ensures
        r == old(st).result,
        final(st).result is None,
        final(st).pending == old(st).pending,
        final(st).running == old(st).running,
        final(st).work_available == old(st).work_available,
        final(st).output == old(st).output,
{
    let mut r: Option<GuiCmdResult> = None;
    std::mem::swap(&mut r, &mut st.result);
    r
}

/// The command ended: its captured output (at most the capture buffer's
/// capacity) and exit code become the result, capture and the running flag
/// stop, and commands no longer run for the GUI.
pub fn signal_completion(st: &mut GuiCmdState, cap: &mut OutputCaptureState, gui_context: &mut bool, exit_code: i32)
    requires
        old(cap).buffer@.len() == OUTPUT_BUFFER_SIZE,
    ensures
        !final(cap).capturing,
        final(cap).buffer == old(cap).buffer,
        final(cap).len == old(cap).len,
        final(st).result matches Some(r) && r.exit_code == exit_code && r.output@ == old(cap).buffer@.take(
            (if old(cap).len < OUTPUT_BUFFER_SIZE {
                old(cap).len
            } else {
                OUTPUT_BUFFER_SIZE
            }) as int,
        ),
        !final(st).running,
        !*final(gui_context),
        final(st).pending == old(st).pending,
        final(st).work_available == old(st).work_available,
        final(st).output == old(st).output,
{
    cap.capturing = false;
    let len = if cap.len < OUTPUT_BUFFER_SIZE {
        cap.len
    } else {
        OUTPUT_BUFFER_SIZE
    };
    let mut output: Vec<u8> = Vec::new();
    let mut i: usize = 0;
    while i < len
        invariant
            len <= OUTPUT_BUFFER_SIZE,
            cap.buffer@.len() == OUTPUT_BUFFER_SIZE,
            i <= len,
            output@ == cap.buffer@.take(i as int),
        decreases len - i,
    {
        output.push(cap.buffer[i]);
        i = i + 1;
        assert(output@ =~= cap.buffer@.take(i as int));
    }
    st.result = Some(GuiCmdResult { exit_code, output });
    st.running = false;
    *gui_context = false;
}

/// The command ended with the given output.
pub fn signal_completion_with_output(st: &mut GuiCmdState, exit_code: i32, output: Vec<u8>)
    ensures
        final(st).result == Some(GuiCmdResult { exit_code, output }),
        !final(st).running,
        final(st).pending == old(st).pending,
        final(st).work_available == old(st).work_available,
        final(st).output == old(st).output,
{
    st.result = Some(GuiCmdResult { exit_code, output });
    st.running = false;
}

/// Capture output for the GUI.
pub fn write_output(st: &mut GuiCmdState, data: &[u8])
    requires
        old(st).output.wf(),
    ensures
        final(st).output.wf(),
        final(st).output.capturing == old(st).output.capturing,
        old(st).output.capturing ==> final(st).output.data@ == (if old(st).output.data@.len()
            + data@.len() <= GUI_CMD_OUTPUT_MAX {
            old(st).output.data@ + data@
        } else {
            old(st).output.data@ + data@.take(GUI_CMD_OUTPUT_MAX - old(st).output.data@.len())
        }),
        !old(st).output.capturing ==> final(st).output.data@ == old(st).output.data@,
        final(st).pending == old(st).pending,
        final(st).result == old(st).result,
        final(st).running == old(st).running,
        final(st).work_available == old(st).work_available,
{
    st.output.write(data);
}

pub fn is_capturing(st: &GuiCmdState) -> (r: bool)
    ensures
        r == st.output.capturing,
{
    st.output.capturing
}

/// The daemon's step: with work flagged, take the pending command, mark it
/// running and start capturing command output from empty; the caller then
/// runs it and calls `finish_gui_command`.
pub fn gui_cmd_service(st: &mut GuiCmdState, cap: &mut OutputCaptureState) -> (r: Option<GuiCmd>)
    ensures
        !old(st).work_available ==> r is None && final(st).pending == old(st).pending && final(st).running
            == old(st).running && *final(cap) == *old(cap) && !final(st).work_available,
        old(st).work_available ==> !final(st).work_available && final(st).pending is None && r
            == old(st).pending,
        old(st).work_available && old(st).pending is Some ==> final(st).running && final(cap).capturing
            && final(cap).len == 0 && final(cap).buffer == old(cap).buffer,
        old(st).work_available && old(st).pending is None ==> final(st).running == old(st).running
            && *final(cap) == *old(cap),
        final(st).result == old(st).result,
        final(st).output == old(st).output,
{
    if !st.work_available {
        return None;
    }
    st.work_available = false;
    let mut cmd: Option<GuiCmd> = None;
    std::mem::swap(&mut cmd, &mut st.pending);
    if cmd.is_none() {
        return None;
    }
    st.running = true;
    cap.capturing = true;
    cap.len = 0;
    cmd
}

/// After the command returned: if it did not signal completion itself, it
/// ends with exit code 0 and what was captured.
pub fn finish_gui_command(st: &mut GuiCmdState, cap: &mut OutputCaptureState)
    requires
        old(cap).buffer@.len() == OUTPUT_BUFFER_SIZE,
    ensures
        !old(st).running ==> *final(cap) == *old(cap) && final(st).result == old(st).result,
        old(st).running ==> !final(cap).capturing && !final(st).running,
        old(st).running ==> (final(st).result matches Some(r) && r.exit_code == 0 && r.output@ == old(
            cap,
        ).buffer@.take(
            (if old(cap).len < OUTPUT_BUFFER_SIZE {
                old(cap).len
            } else {
                OUTPUT_BUFFER_SIZE
            }) as int,
        )),
        final(st).pending == old(st).pending,
        final(st).work_available == old(st).work_available,
        final(st).output == old(st).output,
{
    if st.running {
        cap.capturing = false;
        let len = if cap.len < OUTPUT_BUFFER_SIZE {
            cap.len
        } else {
            OUTPUT_BUFFER_SIZE
        };
        let mut output: Vec<u8> = Vec::new();
        let mut i: usize = 0;
        while i < len
            invariant
                len <= OUTPUT_BUFFER_SIZE,
                cap.buffer@.len() == OUTPUT_BUFFER_SIZE,
                i <= len,
                output@ == cap.buffer@.take(i as int),
            decreases len - i,
        {
            output.push(cap.buffer[i]);
            i = i + 1;
            assert(output@ =~= cap.buffer@.take(i as int));
        }
        signal_completion_with_output(st, 0, output);
    }
}

} // verus!
