//! Running user commands: where scripts are looked up, where command output
//! goes, and the bookkeeping around a running command.
use vstd::prelude::*;
use vstd::string::StringSliceAdditionalSpecFns;
use crate::lock::state::output::{OutputCaptureState, OUTPUT_BUFFER_SIZE};
use crate::lock::state::shell::ShellCmdState;
use crate::text::{byte_views, bytes_from, find, find_byte, has_prefix, split_whitespace, str_from_utf8, words};
use crate::uart::{write_str, Console};
use crate::fmt::{push_bytes, push_signed_decimal, signed_dec_text};

verus! {

/// Mark whether commands now run for the GUI.
pub fn set_gui_context(gui_context: &mut bool, enabled: bool)
    ensures
        *final(gui_context) == enabled,
{
    *gui_context = enabled;
}

/// Whether commands run for the GUI.
pub fn is_gui_context(gui_context: &bool) -> (r: bool)
    ensures
        r == *gui_context,
{
    *gui_context
}

/// Start the shell session's clock.
pub fn shell_cmd_init(state: &mut ShellCmdState, now: u64)
    ensures
        *final(state) == (ShellCmdState { session_start: now, ..*old(state) }),
{
    state.session_start = now;
}

/// Start tracking a command (see `ShellCmdState::start_command`).
pub fn shell_cmd_start(state: &mut ShellCmdState, cmd_name: &str, now: u64, pid: u32)
    ensures
        final(state).wf(),
        ({
            let bytes = cmd_name.spec_bytes();
            let n = if bytes.len() < 32 {
                bytes.len()
            } else {
                32
            };
            &&& final(state).name_len == n
            &&& final(state).name_bytes() == bytes.take(n as int)
        }),
        final(state).start_time == now,
        final(state).is_running,
        final(state).accumulated_cpu_time == 0,
        final(state).pid == pid,
        final(state).session_start == old(state).session_start,
{
    state.start_command(cmd_name, now, pid);
}

/// Stop tracking the command (see `ShellCmdState::end_command`).
pub fn shell_cmd_end(state: &mut ShellCmdState, now: u64)
    ensures
        old(state).is_running ==> *final(state) == (ShellCmdState {
            accumulated_cpu_time: old(state).accumulated_cpu_time.saturating_add(
                now.saturating_sub(old(state).start_time),
            ),
            is_running: false,
            ..*old(state)
        }),
        !old(state).is_running ==> *final(state) == *old(state),
{
    state.end_command(now);
}

/// The capture buffer after appending `bytes` while capturing: bytes past the
/// buffer's capacity are dropped.
pub open spec fn captured_after(cap: Seq<u8>, bytes: Seq<u8>) -> Seq<u8> {
    let room = OUTPUT_BUFFER_SIZE - cap.len();
    if bytes.len() <= room {
        cap + bytes
    } else {
        cap + bytes.take(room)
    }
}

/// Bytes of command output: into the capture buffer while it captures (what
/// does not fit is dropped), else to the console.
pub fn out_bytes(cap: &mut OutputCaptureState, console: &mut Console, bytes: &[u8])
    requires
        old(cap).buffer@.len() == OUTPUT_BUFFER_SIZE,
        old(cap).len <= OUTPUT_BUFFER_SIZE,
    ensures
        final(cap).buffer@.len() == OUTPUT_BUFFER_SIZE,
        final(cap).len <= OUTPUT_BUFFER_SIZE,
        final(cap).capturing == old(cap).capturing,
        old(cap).capturing ==> final(cap).captured() == captured_after(old(cap).captured(), bytes@)
            && final(console).tx@ == old(console).tx@,
        !old(cap).capturing ==> *final(cap) == *old(cap) && final(console).tx@ == old(console).tx@
            + bytes@,
{
    if cap.capturing {
        let ghost c0 = cap.captured();
        let ghost room = OUTPUT_BUFFER_SIZE - c0.len();
        let mut i: usize = 0;
        while i < bytes.len()
            invariant
                cap.buffer@.len() == OUTPUT_BUFFER_SIZE,
                cap.len <= OUTPUT_BUFFER_SIZE,
                cap.capturing,
                i <= bytes@.len(),
                c0.len() <= OUTPUT_BUFFER_SIZE,
                room == OUTPUT_BUFFER_SIZE - c0.len(),
                cap.len == c0.len() + (if i <= room { i as int } else { room }),
                cap.captured() == captured_after(c0, bytes@.take(i as int)),
            decreases bytes@.len() - i,
        {
            let idx = cap.len;
            let ghost before = cap.captured();
            if idx < OUTPUT_BUFFER_SIZE {
                cap.buffer.set(idx, bytes[i]);
                cap.len = idx + 1;
                assert(cap.captured() =~= before.push(bytes@[i as int]));
                assert(bytes@.take(i + 1) =~= bytes@.take(i as int).push(bytes@[i as int]));
            } else {
                assert(bytes@.take(i + 1).take(room) =~= bytes@.take(i as int).take(room));
            }
            i = i + 1;
            assert(cap.captured() =~= captured_after(c0, bytes@.take(i as int)));
        }
        assert(bytes@.take(bytes@.len() as int) =~= bytes@);
    } else {
        push_bytes(&mut console.tx, bytes);
    }
}

/// Command output (see `out_bytes`).
pub fn out_str(cap: &mut OutputCaptureState, console: &mut Console, s: &str)
    requires
        old(cap).buffer@.len() == OUTPUT_BUFFER_SIZE,
        old(cap).len <= OUTPUT_BUFFER_SIZE,
    ensures
        final(cap).buffer@.len() == OUTPUT_BUFFER_SIZE,
        final(cap).len <= OUTPUT_BUFFER_SIZE,
        final(cap).capturing == old(cap).capturing,
        old(cap).capturing ==> final(cap).captured() == captured_after(old(cap).captured(), s.spec_bytes())
            && final(console).tx@ == old(console).tx@,
        !old(cap).capturing ==> *final(cap) == *old(cap) && final(console).tx@ == old(console).tx@
            + s.spec_bytes(),
{
    out_bytes(cap, console, s.as_bytes());
}

/// Command output followed by a newline.
pub fn out_line(cap: &mut OutputCaptureState, console: &mut Console, s: &str)
    requires
        old(cap).buffer@.len() == OUTPUT_BUFFER_SIZE,
        old(cap).len <= OUTPUT_BUFFER_SIZE,
    ensures
        final(cap).buffer@.len() == OUTPUT_BUFFER_SIZE,
        final(cap).len <= OUTPUT_BUFFER_SIZE,
        final(cap).capturing == old(cap).capturing,
        old(cap).capturing ==> final(cap).captured() == captured_after(
            captured_after(old(cap).captured(), s.spec_bytes()),
            seq![0x0au8],
        ) && final(console).tx@ == old(console).tx@,
        !old(cap).capturing ==> *final(cap) == *old(cap) && final(console).tx@ == old(console).tx@
            + s.spec_bytes() + seq![0x0au8],
{
    out_str(cap, console, s);
    let nl: [u8; 1] = [0x0a];
    out_bytes(cap, console, &nl);
}

pub open spec fn usr_bin_dir() -> Seq<u8> {
    seq![0x2fu8, 0x75, 0x73, 0x72, 0x2f, 0x62, 0x69, 0x6e, 0x2f]
}

/// Where a command's script is looked for, in order: a command with a '/' is
/// a path (absolute, or `resolved`, the command resolved against the working
/// directory); any other command is tried in /usr/bin, then as given.
pub open spec fn script_paths(cmd: Seq<u8>, resolved: Seq<u8>) -> Seq<Seq<u8>> {
    if find(cmd, 0x2f) is Some {
        if cmd[0] == 0x2f {
            seq![cmd]
        } else {
            seq![resolved]
        }
    } else {
        seq![usr_bin_dir() + cmd, cmd]
    }
}

/// The paths to read for a command's script, in order; the script is the
/// first of them that exists.
pub fn find_script(cmd: &Vec<u8>, resolved: &Vec<u8>) -> (paths: Vec<Vec<u8>>)
    ensures
        paths@.map_values(|p: Vec<u8>| p@) == script_paths(cmd@, resolved@),
{
    let mut paths: Vec<Vec<u8>> = Vec::new();
    if find_byte(cmd, 0x2f).is_some() {
        if cmd[0] == 0x2f {
            paths.push(cmd.clone());
        } else {
            paths.push(resolved.clone());
        }
    } else {
        let mut full: Vec<u8> = Vec::new();
        push_bytes(&mut full, &[0x2fu8, 0x75, 0x73, 0x72, 0x2f, 0x62, 0x69, 0x6e, 0x2f]);
        push_bytes(&mut full, cmd.as_slice());
        paths.push(full);
        paths.push(cmd.clone());
    }
    assert(paths@.map_values(|p: Vec<u8>| p@) =~= script_paths(cmd@, resolved@));
    paths
}

/// A command or argument as text: the bytes if they are UTF-8, else empty.
pub fn text_or_empty(bytes: &[u8]) -> (r: Vec<u8>)
    ensures
        vstd::utf8::valid_utf8(bytes@) ==> r@ == bytes@,
        !vstd::utf8::valid_utf8(bytes@) ==> r@.len() == 0,
{
    let mut r: Vec<u8> = Vec::new();
    if str_from_utf8(bytes).is_some() {
        push_bytes(&mut r, bytes);
    }
    r
}

/// Run a command whose script was looked up: with a script, the command is
/// tracked while the caller runs it (true); without one, "Command not found"
/// and a hint go to the command output (false).
pub fn execute_command(
    cap: &mut OutputCaptureState,
    console: &mut Console,
    state: &mut ShellCmdState,
    cmd: &str,
    script_found: bool,
    now: u64,
    pid: u32,
) -> (run: bool)
    requires
        old(cap).buffer@.len() == OUTPUT_BUFFER_SIZE,
        old(cap).len <= OUTPUT_BUFFER_SIZE,
    ensures
        run == script_found,
        final(cap).buffer@.len() == OUTPUT_BUFFER_SIZE,
        final(cap).len <= OUTPUT_BUFFER_SIZE,
        script_found ==> *final(cap) == *old(cap) && final(console).tx@ == old(console).tx@
            && final(state).is_running && final(state).start_time == now && final(state).pid == pid,
        !script_found ==> *final(state) == *old(state),
{
    if script_found {
        shell_cmd_start(state, cmd, now, pid);
        return true;
    }
    out_str(cap, console, "\x1b[1;31mCommand not found:\x1b[0m ");
    out_line(cap, console, cmd);
    out_line(cap, console, "\x1b[0;90mTry 'help' for available commands, or check /usr/bin/ for scripts\x1b[0m");
    false
}

// ─── Running a script's bytes ────────────────────────────────────────────────

/// What a script's bytes are.
#[derive(Clone, Copy, PartialEq, Eq, Structural)]
pub enum BinaryKind {
    /// A RISC-V ELF executable (magic 0x7f 'E' 'L' 'F').
    Elf,
    /// A WebAssembly module (magic "\0asm").
    Wasm,
    Unknown,
}

pub open spec fn spec_binary_kind(b: Seq<u8>) -> BinaryKind {
    if b.len() >= 4 && b[0] == 0x7f && b[1] == 0x45 && b[2] == 0x4c && b[3] == 0x46 {
        BinaryKind::Elf
    } else if b.len() >= 4 && b[0] == 0x00 && b[1] == 0x61 && b[2] == 0x73 && b[3] == 0x6d {
        BinaryKind::Wasm
    } else {
        BinaryKind::Unknown
    }
}

/// Tell an ELF executable from a WebAssembly module by their magic numbers.
pub fn binary_kind(bytes: &[u8]) -> (k: BinaryKind)
    ensures
        k == spec_binary_kind(bytes@),
{
    if bytes.len() >= 4 && bytes[0] == 0x7f && bytes[1] == 0x45 && bytes[2] == 0x4c && bytes[3] == 0x46 {
        BinaryKind::Elf
    } else if bytes.len() >= 4 && bytes[0] == 0x00 && bytes[1] == 0x61 && bytes[2] == 0x73 && bytes[3]
        == 0x6d {
        BinaryKind::Wasm
    } else {
        BinaryKind::Unknown
    }
}

/// How a script's bytes are run.
pub enum ScriptRun {
    /// Load and run the ELF executable with these arguments.
    Elf(Vec<Vec<u8>>),
    /// Run the WebAssembly module with these arguments.
    Wasm(Vec<Vec<u8>>),
    /// Neither: print this error.
    Invalid(Vec<u8>),
}

pub open spec fn lit_invalid_binary() -> Seq<u8> {
    seq![0x1bu8, 0x5b, 0x31, 0x3b, 0x33, 0x31, 0x6d, 0x45, 0x72, 0x72, 0x6f, 0x72, 0x3a, 0x1b, 0x5b, 0x30, 0x6d, 0x20, 0x4e, 0x6f, 0x74, 0x20, 0x61, 0x20, 0x76, 0x61, 0x6c, 0x69, 0x64, 0x20, 0x62, 0x69, 0x6e, 0x61, 0x72, 0x79, 0x20, 0x28, 0x65, 0x78, 0x70, 0x65, 0x63, 0x74, 0x65, 0x64, 0x20, 0x45, 0x4c, 0x46, 0x20, 0x6f, 0x72, 0x20, 0x57, 0x41, 0x53, 0x4d, 0x29, 0x0a]
}

/// Run a script: an ELF executable (preferred) or a WebAssembly module gets
/// the arguments split at whitespace; anything else is refused with a message.
pub fn run_script_bytes(bytes: &[u8], args: &[u8]) -> (r: ScriptRun)
    ensures
        match r {
            ScriptRun::Elf(a) => spec_binary_kind(bytes@) == BinaryKind::Elf && byte_views(a@) == words(args@),
            ScriptRun::Wasm(a) => spec_binary_kind(bytes@) == BinaryKind::Wasm && byte_views(a@) == words(
                args@,
            ),
            ScriptRun::Invalid(t) => spec_binary_kind(bytes@) == BinaryKind::Unknown && t@ == lit_invalid_binary(),
        },
{
    match binary_kind(bytes) {
        BinaryKind::Elf => ScriptRun::Elf(split_whitespace(args)),
        BinaryKind::Wasm => ScriptRun::Wasm(split_whitespace(args)),
        BinaryKind::Unknown => {
            let lit: [u8; 60] = [0x1b, 0x5b, 0x31, 0x3b, 0x33, 0x31, 0x6d, 0x45, 0x72, 0x72, 0x6f, 0x72, 0x3a, 0x1b, 0x5b, 0x30, 0x6d, 0x20, 0x4e, 0x6f, 0x74, 0x20, 0x61, 0x20, 0x76, 0x61, 0x6c, 0x69, 0x64, 0x20, 0x62, 0x69, 0x6e, 0x61, 0x72, 0x79, 0x20, 0x28, 0x65, 0x78, 0x70, 0x65, 0x63, 0x74, 0x65, 0x64, 0x20, 0x45, 0x4c, 0x46, 0x20, 0x6f, 0x72, 0x20, 0x57, 0x41, 0x53, 0x4d, 0x29, 0x0a];
            assert(lit@ =~= lit_invalid_binary());
            let mut t: Vec<u8> = Vec::new();
            push_bytes(&mut t, &lit);
            ScriptRun::Invalid(t)
        },
    }
}

pub open spec fn lit_exited() -> Seq<u8> {
    seq![0x1bu8, 0x5b, 0x31, 0x3b, 0x33, 0x31, 0x6d, 0x45, 0x78, 0x69, 0x74, 0x65, 0x64, 0x20, 0x77, 0x69, 0x74, 0x68, 0x20, 0x63, 0x6f, 0x64, 0x65, 0x3a, 0x1b, 0x5b, 0x30, 0x6d, 0x20]
}

/// What an executable's exit prints: nothing for 0, else its code.
pub fn exit_message(code: i32) -> (r: Option<Vec<u8>>)
    ensures
        code == 0 ==> r is None,
        code != 0 ==> (r matches Some(t) && t@ == lit_exited() + signed_dec_text(code as int) + seq![0x0au8]),
{
    if code == 0 {
        return None;
    }
    let lit: [u8; 29] = [0x1b, 0x5b, 0x31, 0x3b, 0x33, 0x31, 0x6d, 0x45, 0x78, 0x69, 0x74, 0x65, 0x64, 0x20, 0x77, 0x69, 0x74, 0x68, 0x20, 0x63, 0x6f, 0x64, 0x65, 0x3a, 0x1b, 0x5b, 0x30, 0x6d, 0x20];
    assert(lit@ =~= lit_exited());
    let mut t: Vec<u8> = Vec::new();
    push_bytes(&mut t, &lit);
    push_signed_decimal(&mut t, code as i64);
    t.push(0x0a);
    Some(t)
}

} // verus!
