//! The system call interface: call numbers, decoding a trap's registers into
//! a request, and the per-program argument context.
use vstd::prelude::*;
use vstd::string::StringSliceAdditionalSpecFns;
use crate::text::str_from_utf8;

verus! {

pub const SYS_PRINT: u64 = 0;
pub const SYS_TIME: u64 = 1;
pub const SYS_EXIT: u64 = 2;
pub const SYS_ARG_COUNT: u64 = 10;
pub const SYS_ARG_GET: u64 = 11;
pub const SYS_CWD_GET: u64 = 12;
pub const SYS_CWD_SET: u64 = 13;
pub const SYS_FS_EXISTS: u64 = 20;
pub const SYS_FS_READ: u64 = 21;
pub const SYS_FS_WRITE: u64 = 22;
pub const SYS_FS_LIST: u64 = 23;
pub const SYS_FS_STAT: u64 = 24;
pub const SYS_FS_REMOVE: u64 = 25;
pub const SYS_FS_MKDIR: u64 = 26;
pub const SYS_FS_IS_DIR: u64 = 27;
pub const SYS_FS_LIST_DIR: u64 = 28;
pub const SYS_NET_AVAILABLE: u64 = 30;
pub const SYS_DNS_RESOLVE: u64 = 31;
pub const SYS_SEND_PING: u64 = 32;
pub const SYS_TCP_CONNECT: u64 = 33;
pub const SYS_TCP_SEND: u64 = 34;
pub const SYS_TCP_RECV: u64 = 35;
pub const SYS_TCP_CLOSE: u64 = 36;
pub const SYS_TCP_STATUS: u64 = 37;
pub const SYS_HTTP_GET: u64 = 38;
pub const SYS_CONSOLE_AVAILABLE: u64 = 40;
pub const SYS_CONSOLE_READ: u64 = 41;
pub const SYS_PS_LIST: u64 = 50;
pub const SYS_KILL: u64 = 51;
pub const SYS_CPU_INFO: u64 = 52;
pub const SYS_SHUTDOWN: u64 = 60;
pub const SYS_SHOULD_CANCEL: u64 = 61;
pub const SYS_RANDOM: u64 = 62;
pub const SYS_ENV_GET: u64 = 63;
pub const SYS_KLOG_GET: u64 = 64;
pub const SYS_SERVICE_LIST: u64 = 70;
pub const SYS_SERVICE_START: u64 = 71;
pub const SYS_SERVICE_STOP: u64 = 72;
pub const SYS_SERVICE_RUNNING: u64 = 73;
pub const SYS_NET_INFO: u64 = 80;
pub const SYS_HEAP_STATS: u64 = 81;
pub const SYS_SLEEP: u64 = 82;

/// A decoded system call: user pointers are addresses in the caller's memory.
#[derive(Clone, Copy, PartialEq, Eq, Structural)]
pub enum Syscall {
    Print { ptr: usize, len: usize },
    Time,
    Exit { code: i32 },
    ArgCount,
    ArgGet { index: usize, buf: usize, buf_len: usize },
    CwdGet { buf: usize, buf_len: usize },
    CwdSet { path: usize, path_len: usize },
    FsExists { path: usize, path_len: usize },
    FsRead { path: usize, path_len: usize, buf: usize, buf_len: usize },
    FsWrite { path: usize, path_len: usize, data: usize, data_len: usize },
    FsList { buf: usize, buf_len: usize },
    FsListDir { path: usize, path_len: usize, buf: usize, buf_len: usize },
    FsStat { path: usize, path_len: usize, out: usize },
    FsRemove { path: usize, path_len: usize },
    FsMkdir { path: usize, path_len: usize },
    FsIsDir { path: usize, path_len: usize },
    NetAvailable,
    DnsResolve { host: usize, host_len: usize, buf: usize, buf_len: usize },
    SendPing { ip: usize, seq: i32, timeout_ms: i32, out: usize },
    TcpConnect { ip: usize, port: u16 },
    TcpSend { data: usize, data_len: usize },
    TcpRecv { buf: usize, buf_len: usize },
    TcpClose,
    TcpStatus,
    HttpGet { url: usize, url_len: usize, resp: usize, resp_len: usize },
    ConsoleAvailable,
    ConsoleRead { buf: usize, buf_len: usize },
    PsList { buf: usize, buf_len: usize },
    Kill { pid: u32 },
    CpuInfo { cpu: i32, out: usize },
    Shutdown,
    ShouldCancel,
    Random { buf: usize, buf_len: usize },
    EnvGet { key: usize, key_len: usize, val: usize, val_len: usize },
    KlogGet { count: usize, buf: usize, buf_len: usize },
    ServiceList { buf: usize, buf_len: usize },
    ServiceStart { name: usize, name_len: usize },
    ServiceStop { name: usize, name_len: usize },
    ServiceRunning { buf: usize, buf_len: usize },
    NetInfo { out: usize, out_len: usize },
    HeapStats { out: usize },
    Sleep { ms: u64 },
    /// No such call: the caller gets -1 (ENOSYS).
    Unknown,
}

/// What a call number and argument registers ask for (arguments are
/// truncated to each call's parameter types, as the dispatcher casts them).
pub open spec fn syscall_of(num: u64, a0: u64, a1: u64, a2: u64, a3: u64) -> Syscall {
        if num == SYS_PRINT {
        Syscall::Print { ptr: a0 as usize, len: a1 as usize }
    }     else if num == SYS_TIME {
        Syscall::Time
    }     else if num == SYS_EXIT {
        Syscall::Exit { code: a0 as i32 }
    }     else if num == SYS_ARG_COUNT {
        Syscall::ArgCount
    }     else if num == SYS_ARG_GET {
        Syscall::ArgGet { index: a0 as usize, buf: a1 as usize, buf_len: a2 as usize }
    }     else if num == SYS_CWD_GET {
        Syscall::CwdGet { buf: a0 as usize, buf_len: a1 as usize }
    }     else if num == SYS_CWD_SET {
        Syscall::CwdSet { path: a0 as usize, path_len: a1 as usize }
    }     else if num == SYS_FS_EXISTS {
        Syscall::FsExists { path: a0 as usize, path_len: a1 as usize }
    }     else if num == SYS_FS_READ {
        Syscall::FsRead { path: a0 as usize, path_len: a1 as usize, buf: a2 as usize, buf_len: a3 as usize }
    }     else if num == SYS_FS_WRITE {
        Syscall::FsWrite { path: a0 as usize, path_len: a1 as usize, data: a2 as usize, data_len: a3 as usize }
    }     else if num == SYS_FS_LIST {
        Syscall::FsList { buf: a0 as usize, buf_len: a1 as usize }
    }     else if num == SYS_FS_LIST_DIR {
        Syscall::FsListDir { path: a0 as usize, path_len: a1 as usize, buf: a2 as usize, buf_len: a3 as usize }
    }     else if num == SYS_FS_STAT {
        Syscall::FsStat { path: a0 as usize, path_len: a1 as usize, out: a2 as usize }
    }     else if num == SYS_FS_REMOVE {
        Syscall::FsRemove { path: a0 as usize, path_len: a1 as usize }
    }     else if num == SYS_FS_MKDIR {
        Syscall::FsMkdir { path: a0 as usize, path_len: a1 as usize }
    }     else if num == SYS_FS_IS_DIR {
        Syscall::FsIsDir { path: a0 as usize, path_len: a1 as usize }
    }     else if num == SYS_NET_AVAILABLE {
        Syscall::NetAvailable
    }     else if num == SYS_DNS_RESOLVE {
        Syscall::DnsResolve { host: a0 as usize, host_len: a1 as usize, buf: a2 as usize, buf_len: a3 as usize }
    }     else if num == SYS_SEND_PING {
        Syscall::SendPing { ip: a0 as usize, seq: a1 as i32, timeout_ms: a2 as i32, out: a3 as usize }
    }     else if num == SYS_TCP_CONNECT {
        Syscall::TcpConnect { ip: a0 as usize, port: a1 as u16 }
    }     else if num == SYS_TCP_SEND {
        Syscall::TcpSend { data: a0 as usize, data_len: a1 as usize }
    }     else if num == SYS_TCP_RECV {
        Syscall::TcpRecv { buf: a0 as usize, buf_len: a1 as usize }
    }     else if num == SYS_TCP_CLOSE {
        Syscall::TcpClose
    }     else if num == SYS_TCP_STATUS {
        Syscall::TcpStatus
    }     else if num == SYS_HTTP_GET {
        Syscall::HttpGet { url: a0 as usize, url_len: a1 as usize, resp: a2 as usize, resp_len: a3 as usize }
    }     else if num == SYS_CONSOLE_AVAILABLE {
        Syscall::ConsoleAvailable
    }     else if num == SYS_CONSOLE_READ {
        Syscall::ConsoleRead { buf: a0 as usize, buf_len: a1 as usize }
    }     else if num == SYS_PS_LIST {
        Syscall::PsList { buf: a0 as usize, buf_len: a1 as usize }
    }     else if num == SYS_KILL {
        Syscall::Kill { pid: a0 as u32 }
    }     else if num == SYS_CPU_INFO {
        Syscall::CpuInfo { cpu: a0 as i32, out: a1 as usize }
    }     else if num == SYS_SHUTDOWN {
        Syscall::Shutdown
    }     else if num == SYS_SHOULD_CANCEL {
        Syscall::ShouldCancel
    }     else if num == SYS_RANDOM {
        Syscall::Random { buf: a0 as usize, buf_len: a1 as usize }
    }     else if num == SYS_ENV_GET {
        Syscall::EnvGet { key: a0 as usize, key_len: a1 as usize, val: a2 as usize, val_len: a3 as usize }
    }     else if num == SYS_KLOG_GET {
        Syscall::KlogGet { count: a0 as usize, buf: a1 as usize, buf_len: a2 as usize }
    }     else if num == SYS_SERVICE_LIST {
        Syscall::ServiceList { buf: a0 as usize, buf_len: a1 as usize }
    }     else if num == SYS_SERVICE_START {
        Syscall::ServiceStart { name: a0 as usize, name_len: a1 as usize }
    }     else if num == SYS_SERVICE_STOP {
        Syscall::ServiceStop { name: a0 as usize, name_len: a1 as usize }
    }     else if num == SYS_SERVICE_RUNNING {
        Syscall::ServiceRunning { buf: a0 as usize, buf_len: a1 as usize }
    }     else if num == SYS_NET_INFO {
        Syscall::NetInfo { out: a0 as usize, out_len: a1 as usize }
    }     else if num == SYS_HEAP_STATS {
        Syscall::HeapStats { out: a0 as usize }
    }     else if num == SYS_SLEEP {
        Syscall::Sleep { ms: a0 }
    } else {
        Syscall::Unknown
    }
}

/// The answer to a call number the kernel does not know: -1 (ENOSYS); `None`
/// for a known call, whose handler answers it.
pub fn unknown_call_result(call: &Syscall) -> (r: Option<i64>)
    ensures
        r == (if *call is Unknown {
            Some(-1i64)
        } else {
            None
        }),
{
    match call {
        Syscall::Unknown => Some(-1),
        _ => None,
    }
}

/// Decode a system call from its registers (a7 and a0-a5).
pub fn handle_syscall(syscall_num: u64, a0: u64, a1: u64, a2: u64, a3: u64, a4: u64, a5: u64) -> (r: Syscall)
    ensures
        r == syscall_of(syscall_num, a0, a1, a2, a3),
{
    let num = syscall_num;
        if num == SYS_PRINT {
        Syscall::Print { ptr: a0 as usize, len: a1 as usize }
    }     else if num == SYS_TIME {
        Syscall::Time
    }     else if num == SYS_EXIT {
        Syscall::Exit { code: a0 as i32 }
    }     else if num == SYS_ARG_COUNT {
        Syscall::ArgCount
    }     else if num == SYS_ARG_GET {
        Syscall::ArgGet { index: a0 as usize, buf: a1 as usize, buf_len: a2 as usize }
    }     else if num == SYS_CWD_GET {
        Syscall::CwdGet { buf: a0 as usize, buf_len: a1 as usize }
    }     else if num == SYS_CWD_SET {
        Syscall::CwdSet { path: a0 as usize, path_len: a1 as usize }
    }     else if num == SYS_FS_EXISTS {
        Syscall::FsExists { path: a0 as usize, path_len: a1 as usize }
    }     else if num == SYS_FS_READ {
        Syscall::FsRead { path: a0 as usize, path_len: a1 as usize, buf: a2 as usize, buf_len: a3 as usize }
    }     else if num == SYS_FS_WRITE {
        Syscall::FsWrite { path: a0 as usize, path_len: a1 as usize, data: a2 as usize, data_len: a3 as usize }
    }     else if num == SYS_FS_LIST {
        Syscall::FsList { buf: a0 as usize, buf_len: a1 as usize }
    }     else if num == SYS_FS_LIST_DIR {
        Syscall::FsListDir { path: a0 as usize, path_len: a1 as usize, buf: a2 as usize, buf_len: a3 as usize }
    }     else if num == SYS_FS_STAT {
        Syscall::FsStat { path: a0 as usize, path_len: a1 as usize, out: a2 as usize }
    }     else if num == SYS_FS_REMOVE {
        Syscall::FsRemove { path: a0 as usize, path_len: a1 as usize }
    }     else if num == SYS_FS_MKDIR {
        Syscall::FsMkdir { path: a0 as usize, path_len: a1 as usize }
    }     else if num == SYS_FS_IS_DIR {
        Syscall::FsIsDir { path: a0 as usize, path_len: a1 as usize }
    }     else if num == SYS_NET_AVAILABLE {
        Syscall::NetAvailable
    }     else if num == SYS_DNS_RESOLVE {
        Syscall::DnsResolve { host: a0 as usize, host_len: a1 as usize, buf: a2 as usize, buf_len: a3 as usize }
    }     else if num == SYS_SEND_PING {
        Syscall::SendPing { ip: a0 as usize, seq: a1 as i32, timeout_ms: a2 as i32, out: a3 as usize }
    }     else if num == SYS_TCP_CONNECT {
        Syscall::TcpConnect { ip: a0 as usize, port: a1 as u16 }
    }     else if num == SYS_TCP_SEND {
        Syscall::TcpSend { data: a0 as usize, data_len: a1 as usize }
    }     else if num == SYS_TCP_RECV {
        Syscall::TcpRecv { buf: a0 as usize, buf_len: a1 as usize }
    }     else if num == SYS_TCP_CLOSE {
        Syscall::TcpClose
    }     else if num == SYS_TCP_STATUS {
        Syscall::TcpStatus
    }     else if num == SYS_HTTP_GET {
        Syscall::HttpGet { url: a0 as usize, url_len: a1 as usize, resp: a2 as usize, resp_len: a3 as usize }
    }     else if num == SYS_CONSOLE_AVAILABLE {
        Syscall::ConsoleAvailable
    }     else if num == SYS_CONSOLE_READ {
        Syscall::ConsoleRead { buf: a0 as usize, buf_len: a1 as usize }
    }     else if num == SYS_PS_LIST {
        Syscall::PsList { buf: a0 as usize, buf_len: a1 as usize }
    }     else if num == SYS_KILL {
        Syscall::Kill { pid: a0 as u32 }
    }     else if num == SYS_CPU_INFO {
        Syscall::CpuInfo { cpu: a0 as i32, out: a1 as usize }
    }     else if num == SYS_SHUTDOWN {
        Syscall::Shutdown
    }     else if num == SYS_SHOULD_CANCEL {
        Syscall::ShouldCancel
    }     else if num == SYS_RANDOM {
        Syscall::Random { buf: a0 as usize, buf_len: a1 as usize }
    }     else if num == SYS_ENV_GET {
        Syscall::EnvGet { key: a0 as usize, key_len: a1 as usize, val: a2 as usize, val_len: a3 as usize }
    }     else if num == SYS_KLOG_GET {
        Syscall::KlogGet { count: a0 as usize, buf: a1 as usize, buf_len: a2 as usize }
    }     else if num == SYS_SERVICE_LIST {
        Syscall::ServiceList { buf: a0 as usize, buf_len: a1 as usize }
    }     else if num == SYS_SERVICE_START {
        Syscall::ServiceStart { name: a0 as usize, name_len: a1 as usize }
    }     else if num == SYS_SERVICE_STOP {
        Syscall::ServiceStop { name: a0 as usize, name_len: a1 as usize }
    }     else if num == SYS_SERVICE_RUNNING {
        Syscall::ServiceRunning { buf: a0 as usize, buf_len: a1 as usize }
    }     else if num == SYS_NET_INFO {
        Syscall::NetInfo { out: a0 as usize, out_len: a1 as usize }
    }     else if num == SYS_HEAP_STATS {
        Syscall::HeapStats { out: a0 as usize }
    }     else if num == SYS_SLEEP {
        Syscall::Sleep { ms: a0 }
    } else {
        Syscall::Unknown
    }
}

/// The running program's arguments and, once it exits, its exit code.
pub struct SyscallContext {
    pub args: Vec<Vec<u8>>,
    pub exit_code: Option<i32>,
}

/// Start a program with these arguments.
pub fn init_context(ctx: &mut Option<SyscallContext>, args: Vec<Vec<u8>>)
    ensures
        *final(ctx) == Some(SyscallContext { args, exit_code: None }),
{
    *ctx = Some(SyscallContext { args, exit_code: None });
}

/// The program ended: drop its context and hand out its exit code, if any.
pub fn clear_context(ctx: &mut Option<SyscallContext>) -> (code: Option<i32>)
    ensures
        *final(ctx) is None,
        code == match *old(ctx) {
            Some(c) => c.exit_code,
            None => None,
        },
{
    let mut taken: Option<SyscallContext> = None;
    std::mem::swap(&mut taken, ctx);
    match taken {
        Some(c) => c.exit_code,
        None => None,
    }
}

/// The program's exit call: record the code and return it.
pub fn sys_exit(ctx: &mut Option<SyscallContext>, code: i32) -> (r: i64)
    ensures
        r == code as i64,
        match *old(ctx) {
            Some(c) => *final(ctx) == Some(SyscallContext { exit_code: Some(code), ..c }),
            None => *final(ctx) is None,
        },
{
    match ctx {
        Some(c) => {
            c.exit_code = Some(code);
        },
        None => {},
    }
    code as i64
}

/// Number of arguments (0 without a program).
pub fn sys_arg_count(ctx: &Option<SyscallContext>) -> (r: i64)
    ensures
        match *ctx {
            Some(c) => r == c.args@.len() as i64,
            None => r == 0,
        },
{
    match ctx {
        Some(c) => c.args.len() as i64,
        None => 0,
    }
}

/// Argument `index` for a buffer of `buf_len` bytes at a null or non-null
/// address: the bytes to copy and the call's result (their count), or -1
/// without a program, for an index out of range, an argument that does not
/// fit, or a null buffer.
pub fn sys_arg_get(ctx: &Option<SyscallContext>, index: usize, buf_is_null: bool, buf_len: usize) -> (r: (i64, Option<Vec<u8>>))
    ensures
        match *ctx {
            Some(c) => if index < c.args@.len() && c.args@[index as int]@.len() <= buf_len && !buf_is_null {
                r.0 == c.args@[index as int]@.len() as i64 && (r.1 matches Some(b) && b@ == c.args@[index as int]@)
            } else {
                r.0 == -1 && r.1 is None
            },
            None => r.0 == -1 && r.1 is None,
        },
{
    match ctx {
        Some(c) => {
            if index >= c.args.len() {
                return (-1, None);
            }
            let arg = &c.args[index];
            if arg.len() > buf_len || buf_is_null {
                return (-1, None);
            }
            (arg.len() as i64, Some(arg.clone()))
        },
        None => (-1, None),
    }
}

/// A string argument of a call: none for a null address or an empty range;
/// otherwise the bytes read from user memory, if they are UTF-8.
pub fn read_str(ptr_is_null: bool, bytes: &[u8]) -> (r: Option<&str>)
    ensures
        ptr_is_null || bytes@.len() == 0 ==> r is None,
        !(ptr_is_null || bytes@.len() == 0) ==> (r is Some <==> vstd::utf8::valid_utf8(bytes@)),
        r matches Some(s) ==> s.spec_bytes() == bytes@,
{
    if ptr_is_null || bytes.len() == 0 {
        return None;
    }
    str_from_utf8(bytes)
}

/// Print from user memory: -1 for a null address; otherwise 0, with the
/// text to print when the bytes are UTF-8.
pub fn sys_print(ptr_is_null: bool, bytes: &[u8]) -> (r: (i64, Option<Vec<u8>>))
    ensures
        ptr_is_null ==> r.0 == -1 && r.1 is None,
        !ptr_is_null ==> r.0 == 0 && (if bytes@.len() > 0 && vstd::utf8::valid_utf8(bytes@) {
            r.1 matches Some(t) && t@ == bytes@
        } else {
            r.1 is None
        }),
{
    if ptr_is_null {
        return (-1, None);
    }
    match read_str(ptr_is_null, bytes) {
        Some(s) => {
            let mut t: Vec<u8> = Vec::new();
            crate::fmt::push_bytes(&mut t, s.as_bytes());
            (0, Some(t))
        },
        None => (0, None),
    }
}

/// Copy `data` to a user buffer of `max_len` bytes: -1 for a null address,
/// else as much as fits, whose length is returned.
pub fn write_bytes(ptr_is_null: bool, data: &[u8], max_len: usize) -> (r: (i64, Vec<u8>))
    requires
        data@.len() <= i64::MAX,
    ensures
        ptr_is_null ==> r.0 == -1 && r.1@.len() == 0,
        !ptr_is_null ==> {
            let n = if data@.len() < max_len { data@.len() as int } else { max_len as int };
            r.0 == n && r.1@ == data@.take(n)
        },
{
    let mut out: Vec<u8> = Vec::new();
    if ptr_is_null {
        return (-1, out);
    }
    let n: usize = if data.len() < max_len { data.len() } else { max_len };
    let mut i: usize = 0;
    while i < n
        invariant
            i <= n,
            n <= data@.len(),
            out@ == data@.take(i as int),
        decreases n - i,
    {
        out.push(data[i]);
        i = i + 1;
        assert(out@ =~= data@.take(i as int));
    }
    (n as i64, out)
}

/// The working directory for a user buffer of `buf_len` bytes: -1 when it
/// does not fit or the buffer is null; otherwise its length, with the bytes.
pub fn sys_cwd_get(cwd: &[u8], buf_is_null: bool, buf_len: usize) -> (r: (i64, Vec<u8>))
    requires
        cwd@.len() <= i64::MAX,
    ensures
        cwd@.len() > buf_len || buf_is_null ==> r.0 == -1,
        !(cwd@.len() > buf_len || buf_is_null) ==> r.0 == cwd@.len() && r.1@ == cwd@,
{
    if cwd.len() > buf_len {
        return (-1, Vec::new());
    }
    let (n, out) = write_bytes(buf_is_null, cwd, buf_len);
    assert(cwd@.take(cwd@.len() as int) =~= cwd@);
    (n, out)
}

// ─── Calls whose answer the kernel computes from what it gathered ──────────

/// Killing a process: pid 0 (init) is refused with -2; any other pid is
/// handed to the scheduler to exit with code 9, and the call returns 0.
pub fn sys_kill(pid: u32) -> (r: (i64, Option<u32>))
    ensures
        pid == 0 ==> r == (-2i64, None::<u32>),
        pid != 0 ==> r == (0i64, Some(pid)),
{
    if pid == 0 {
        return (-2, None);
    }
    (0, Some(pid))
}

/// The state after `k` steps of the random-bytes generator seeded with `s`
/// (multiply by 1103515245, add 12345, modulo 2^64).
pub open spec fn lcg_state(s: u64, k: nat) -> u64
    decreases k,
{
    if k == 0 {
        s
    } else {
        let p = lcg_state(s, (k - 1) as nat);
        p.wrapping_mul(1103515245u64).wrapping_add(12345u64)
    }
}

/// The `n` random bytes from seed `s`: bits 16..24 of each successive state.
pub open spec fn lcg_bytes(s: u64, n: nat) -> Seq<u8> {
    Seq::new(n, |i: int| ((lcg_state(s, (i + 1) as nat) / 65536) % 256) as u8)
}

/// Random bytes for a buffer of `buf_len` bytes, seeded with the time.
pub fn sys_random(seed: u64, buf_is_null: bool, buf_len: usize) -> (r: (i64, Vec<u8>))
    requires
        buf_len <= i64::MAX,
    ensures
        buf_is_null ==> r.0 == -1 && r.1@.len() == 0,
        !buf_is_null ==> r.0 == buf_len && r.1@ == lcg_bytes(seed, buf_len as nat),
{
    let mut bytes: Vec<u8> = Vec::new();
    let mut state = seed;
    let mut i: usize = 0;
    while i < buf_len
        invariant
            i <= buf_len,
            state == lcg_state(seed, i as nat),
            bytes@ == lcg_bytes(seed, i as nat),
        decreases buf_len - i,
    {
        state = state.wrapping_mul(1103515245).wrapping_add(12345);
        bytes.push(((state / 65536) % 256) as u8);
        i = i + 1;
        assert(bytes@ =~= lcg_bytes(seed, i as nat));
    }
    write_bytes(buf_is_null, bytes.as_slice(), buf_len)
}

/// The environment: HOME, PATH, USER, SHELL, TERM fixed, PWD the working directory.
pub open spec fn env_value(key: Seq<u8>, cwd: Seq<u8>) -> Option<Seq<u8>> {
    if key == seq![0x48u8, 0x4f, 0x4d, 0x45] {
        Some(seq![0x2fu8, 0x68, 0x6f, 0x6d, 0x65])
    } else if key == seq![0x50u8, 0x41, 0x54, 0x48] {
        Some(seq![0x2fu8, 0x75, 0x73, 0x72, 0x2f, 0x62, 0x69, 0x6e])
    } else if key == seq![0x55u8, 0x53, 0x45, 0x52] {
        Some(seq![0x72u8, 0x6f, 0x6f, 0x74])
    } else if key == seq![0x53u8, 0x48, 0x45, 0x4c, 0x4c] {
        Some(seq![0x2fu8, 0x75, 0x73, 0x72, 0x2f, 0x62, 0x69, 0x6e, 0x2f, 0x73, 0x68])
    } else if key == seq![0x54u8, 0x45, 0x52, 0x4d] {
        Some(seq![0x78u8, 0x74, 0x65, 0x72, 0x6d, 0x2d, 0x32, 0x35, 0x36, 0x63, 0x6f, 0x6c, 0x6f, 0x72])
    } else if key == seq![0x50u8, 0x57, 0x44] {
        Some(cwd)
    } else {
        None
    }
}

/// The value of an environment variable for a buffer of `val_len` bytes:
/// -1 for a key that cannot be read or is not set; otherwise as `write_bytes`.
pub fn sys_env_get(key_is_null: bool, key: &[u8], cwd: &[u8], val_is_null: bool, val_len: usize) -> (r: (i64, Vec<u8>))
    requires
        cwd@.len() <= i64::MAX,
    ensures
        ({
            let readable = !key_is_null && key@.len() > 0 && vstd::utf8::valid_utf8(key@);
            match (if readable { env_value(key@, cwd@) } else { None }) {
                None => r.0 == -1 && r.1@.len() == 0,
                Some(v) => if val_is_null {
                    r.0 == -1 && r.1@.len() == 0
                } else {
                    let n = if v.len() < val_len { v.len() as int } else { val_len as int };
                    r.0 == n && r.1@ == v.take(n)
                },
            }
        }),
{
    if read_str(key_is_null, key).is_none() {
        return (-1, Vec::new());
    }
    let kv = crate::tls12::crypto::concat(key, &[]);
    assert(kv@ =~= key@);
    if crate::text::is_exactly(&kv, &[0x48u8, 0x4f, 0x4d, 0x45]) {
        let v: [u8; 5] = [0x2f, 0x68, 0x6f, 0x6d, 0x65];
        assert(v@ =~= seq![0x2fu8, 0x68, 0x6f, 0x6d, 0x65]);
        return write_bytes(val_is_null, &v, val_len);
    }
    if crate::text::is_exactly(&kv, &[0x50u8, 0x41, 0x54, 0x48]) {
        let v: [u8; 8] = [0x2f, 0x75, 0x73, 0x72, 0x2f, 0x62, 0x69, 0x6e];
        assert(v@ =~= seq![0x2fu8, 0x75, 0x73, 0x72, 0x2f, 0x62, 0x69, 0x6e]);
        return write_bytes(val_is_null, &v, val_len);
    }
    if crate::text::is_exactly(&kv, &[0x55u8, 0x53, 0x45, 0x52]) {
        let v: [u8; 4] = [0x72, 0x6f, 0x6f, 0x74];
        assert(v@ =~= seq![0x72u8, 0x6f, 0x6f, 0x74]);
        return write_bytes(val_is_null, &v, val_len);
    }
    if crate::text::is_exactly(&kv, &[0x53u8, 0x48, 0x45, 0x4c, 0x4c]) {
        let v: [u8; 11] = [0x2f, 0x75, 0x73, 0x72, 0x2f, 0x62, 0x69, 0x6e, 0x2f, 0x73, 0x68];
        assert(v@ =~= seq![0x2fu8, 0x75, 0x73, 0x72, 0x2f, 0x62, 0x69, 0x6e, 0x2f, 0x73, 0x68]);
        return write_bytes(val_is_null, &v, val_len);
    }
    if crate::text::is_exactly(&kv, &[0x54u8, 0x45, 0x52, 0x4d]) {
        let v: [u8; 14] = [0x78, 0x74, 0x65, 0x72, 0x6d, 0x2d, 0x32, 0x35, 0x36, 0x63, 0x6f, 0x6c, 0x6f, 0x72];
        assert(v@ =~= seq![0x78u8, 0x74, 0x65, 0x72, 0x6d, 0x2d, 0x32, 0x35, 0x36, 0x63, 0x6f, 0x6c, 0x6f, 0x72]);
        return write_bytes(val_is_null, &v, val_len);
    }
    if crate::text::is_exactly(&kv, &[0x50u8, 0x57, 0x44]) {
        return write_bytes(val_is_null, cwd, val_len);
    }
    (-1, Vec::new())
}

/// The known services, one "name:description" line each.
pub open spec fn service_list_text() -> Seq<u8> {
    seq![0x6e, 0x65, 0x74, 0x64, 0x3a, 0x4e, 0x65, 0x74, 0x77, 0x6f, 0x72, 0x6b, 0x20, 0x64, 0x61, 0x65, 0x6d, 0x6f, 0x6e, 0x0a, 0x68, 0x74, 0x74, 0x70, 0x64, 0x3a, 0x48, 0x54, 0x54, 0x50, 0x20, 0x73, 0x65, 0x72, 0x76, 0x65, 0x72, 0x0a, 0x67, 0x70, 0x75, 0x69, 0x64, 0x3a, 0x47, 0x55, 0x49, 0x20, 0x64, 0x61, 0x65, 0x6d, 0x6f, 0x6e, 0x0a]
}

/// The list of known services for a buffer of `buf_len` bytes (as `write_bytes`).
pub fn sys_service_list(buf_is_null: bool, buf_len: usize) -> (r: (i64, Vec<u8>))
    ensures
        buf_is_null ==> r.0 == -1 && r.1@.len() == 0,
        !buf_is_null ==> {
            let n = if 55 < buf_len { 55 } else { buf_len as int };
            r.0 == n && r.1@ == service_list_text().take(n)
        },
{
    let t: [u8; 55] = [0x6e, 0x65, 0x74, 0x64, 0x3a, 0x4e, 0x65, 0x74, 0x77, 0x6f, 0x72, 0x6b, 0x20, 0x64, 0x61, 0x65, 0x6d, 0x6f, 0x6e, 0x0a, 0x68, 0x74, 0x74, 0x70, 0x64, 0x3a, 0x48, 0x54, 0x54, 0x50, 0x20, 0x73, 0x65, 0x72, 0x76, 0x65, 0x72, 0x0a, 0x67, 0x70, 0x75, 0x69, 0x64, 0x3a, 0x47, 0x55, 0x49, 0x20, 0x64, 0x61, 0x65, 0x6d, 0x6f, 0x6e, 0x0a];
    assert(t@ =~= service_list_text());
    write_bytes(buf_is_null, &t, buf_len)
}

/// The network record: address, MAC, gateway, DNS server, prefix length (19 bytes).
pub open spec fn net_info_bytes(ip: Seq<u8>) -> Seq<u8> {
    ip + seq![0x52u8, 0x54, 0x00, 0x12, 0x34, 0x56] + seq![10u8, 0, 2, 2] + seq![8u8, 8, 8, 8] + seq![24u8]
}

/// Network information: -1 for a null or short (under 19 bytes) buffer, -2
/// before an address is assigned, else the 19-byte record.
pub fn sys_net_info(out_is_null: bool, out_len: usize, cfg: &crate::net::config::NetConfig) -> (r: (i64, Vec<u8>))
    ensures
        out_is_null || out_len < 19 ==> r.0 == -1 && r.1@.len() == 0,
        !(out_is_null || out_len < 19) && cfg.my_ip@ == seq![0u8, 0, 0, 0] ==> r.0 == -2 && r.1@.len() == 0,
        !(out_is_null || out_len < 19) && cfg.my_ip@ != seq![0u8, 0, 0, 0] ==> r.0 == 19 && r.1@ == net_info_bytes(cfg.my_ip@),
{
    if out_is_null || out_len < 19 {
        return (-1, Vec::new());
    }
    if !crate::net::config::is_ip_assigned(cfg) {
        return (-2, Vec::new());
    }
    let ip = crate::net::config::get_my_ip(cfg);
    let mut buf: Vec<u8> = Vec::new();
    crate::fmt::push_bytes(&mut buf, &ip);
    crate::fmt::push_bytes(&mut buf, &[0x52u8, 0x54, 0x00, 0x12, 0x34, 0x56]);
    crate::fmt::push_bytes(&mut buf, &crate::net::config::GATEWAY);
    crate::fmt::push_bytes(&mut buf, &crate::net::config::DNS_SERVER);
    buf.push(crate::net::config::PREFIX_LEN);
    assert(buf@ =~= net_info_bytes(cfg.my_ip@));
    let r = write_bytes(false, buf.as_slice(), out_len);
    assert(buf@.take(19) =~= buf@);
    r
}

/// Eight little-endian bytes of `n`.
pub open spec fn le64(n: u64) -> Seq<u8> {
    seq![
        ((n as int / 0x1) % 256) as u8,
        ((n as int / 0x100) % 256) as u8,
        ((n as int / 0x1_0000) % 256) as u8,
        ((n as int / 0x100_0000) % 256) as u8,
        ((n as int / 0x1_0000_0000) % 256) as u8,
        ((n as int / 0x100_0000_0000) % 256) as u8,
        ((n as int / 0x1_0000_0000_0000) % 256) as u8,
        ((n as int / 0x100_0000_0000_0000) % 256) as u8,
    ]
}

fn push_le64(out: &mut Vec<u8>, n: u64)
    ensures
        final(out)@ == old(out)@ + le64(n),
{
    out.push(((n / 0x1) % 256) as u8);
    out.push(((n / 0x100) % 256) as u8);
    out.push(((n / 0x1_0000) % 256) as u8);
    out.push(((n / 0x100_0000) % 256) as u8);
    out.push(((n / 0x1_0000_0000) % 256) as u8);
    out.push(((n / 0x100_0000_0000) % 256) as u8);
    out.push(((n / 0x1_0000_0000_0000) % 256) as u8);
    out.push(((n / 0x100_0000_0000_0000) % 256) as u8);
    assert(final(out)@ =~= old(out)@ + le64(n));
}

/// Heap statistics: -1 for a null buffer, else 16 bytes (used, then total,
/// each little-endian).
pub fn sys_heap_stats(out_is_null: bool, used: u64, total: u64) -> (r: (i64, Vec<u8>))
    ensures
        out_is_null ==> r.0 == -1 && r.1@.len() == 0,
        !out_is_null ==> r.0 == 16 && r.1@ == le64(used) + le64(total),
{
    if out_is_null {
        return (-1, Vec::new());
    }
    let mut buf: Vec<u8> = Vec::new();
    push_le64(&mut buf, used);
    push_le64(&mut buf, total);
    let r = write_bytes(false, buf.as_slice(), 16);
    assert(buf@.take(16) =~= buf@);
    r
}

/// The TCP status code: 0 without a network, 2 connected, 3 failed, else 1
/// (connecting).
pub fn sys_tcp_status(net_available: bool, connected: bool, failed: bool) -> (r: i64)
    ensures
        r == (if !net_available {
            0i64
        } else if connected {
            2i64
        } else if failed {
            3i64
        } else {
            1i64
        }),
{
    if !net_available {
        0
    } else if connected {
        2
    } else if failed {
        3
    } else {
        1
    }
}

/// How many log entries a request for `count` gets: at least 1, at most 100.
pub fn klog_request_count(count: usize) -> (n: usize)
    ensures
        n == (if count < 1 {
            1int
        } else if count > 100 {
            100int
        } else {
            count as int
        }),
{
    if count < 1 {
        1
    } else if count > 100 {
        100
    } else {
        count
    }
}

/// One line per listed item: its name, ':', its number in decimal.
pub open spec fn name_number_lines(items: Seq<(Seq<u8>, nat)>) -> Seq<u8>
    decreases items.len(),
{
    if items.len() == 0 {
        Seq::empty()
    } else {
        name_number_lines(items.drop_last()) + items.last().0 + seq![0x3au8] + crate::fmt::dec_text(items.last().1)
            + seq![0x0au8]
    }
}

/// The (name, number) pairs as plain values.
pub open spec fn pair_views(items: Seq<(Vec<u8>, u64)>) -> Seq<(Seq<u8>, nat)> {
    items.map_values(|p: (Vec<u8>, u64)| (p.0@, p.1 as nat))
}

/// "name:number" lines for a listing (files with sizes, daemons with pids).
pub fn name_number_text(items: &Vec<(Vec<u8>, u64)>) -> (r: Vec<u8>)
    ensures
        r@ == name_number_lines(pair_views(items@)),
{
    let mut out: Vec<u8> = Vec::new();
    let mut i: usize = 0;
    while i < items.len()
        invariant
            i <= items@.len(),
            out@ == name_number_lines(pair_views(items@.take(i as int))),
        decreases items@.len() - i,
    {
        crate::fmt::push_bytes(&mut out, items[i].0.as_slice());
        out.push(0x3a);
        crate::fmt::push_decimal(&mut out, items[i].1);
        out.push(0x0a);
        proof {
            assert(pair_views(items@.take(i + 1)).drop_last() =~= pair_views(items@.take(i as int)));
        }
        i = i + 1;
    }
    assert(items@.take(items@.len() as int) =~= items@);
    out
}

/// The file listing for a buffer of `buf_len` bytes: "name:size" lines.
pub fn sys_fs_list(files: &Vec<(Vec<u8>, u64)>, buf_is_null: bool, buf_len: usize) -> (r: (i64, Vec<u8>))
    requires
        name_number_lines(pair_views(files@)).len() <= i64::MAX,
    ensures
        ({
            let t = name_number_lines(pair_views(files@));
            let n = if t.len() < buf_len { t.len() as int } else { buf_len as int };
            &&& buf_is_null ==> r.0 == -1 && r.1@.len() == 0
            &&& !buf_is_null ==> r.0 == n && r.1@ == t.take(n)
        }),
{
    let t = name_number_text(files);
    write_bytes(buf_is_null, t.as_slice(), buf_len)
}

/// The running daemons for a buffer of `buf_len` bytes: "name:pid" lines.
pub fn sys_service_running(daemons: &Vec<(Vec<u8>, u64)>, buf_is_null: bool, buf_len: usize) -> (r: (i64, Vec<u8>))
    requires
        name_number_lines(pair_views(daemons@)).len() <= i64::MAX,
    ensures
        ({
            let t = name_number_lines(pair_views(daemons@));
            let n = if t.len() < buf_len { t.len() as int } else { buf_len as int };
            &&& buf_is_null ==> r.0 == -1 && r.1@.len() == 0
            &&& !buf_is_null ==> r.0 == n && r.1@ == t.take(n)
        }),
{
    let t = name_number_text(daemons);
    write_bytes(buf_is_null, t.as_slice(), buf_len)
}

/// A process as the process list shows it.
pub struct ProcessEntry {
    pub pid: u32,
    pub name: Vec<u8>,
    pub running: bool,
    pub priority: u8,
    pub cpu_time_ms: u64,
    pub uptime_ms: u64,
}

/// The shell command running, if any, as the process list shows it.
pub struct ShellCommandEntry {
    pub name: Vec<u8>,
    pub pid: u32,
    pub cpu_time_ms: u64,
    pub uptime_ms: u64,
    pub running: bool,
}

pub open spec fn run_letter(running: bool) -> u8 {
    if running { 0x52 } else { 0x53 }
}

/// A process's line: "pid:name:R|S:priority:cpu_ms:uptime_ms".
pub open spec fn process_line(p: ProcessEntry) -> Seq<u8> {
    crate::fmt::dec_text(p.pid as nat) + seq![0x3au8] + p.name@ + seq![0x3au8, run_letter(p.running), 0x3au8]
        + crate::fmt::dec_text(p.priority as nat) + seq![0x3au8] + crate::fmt::dec_text(p.cpu_time_ms as nat) + seq![0x3au8]
        + crate::fmt::dec_text(p.uptime_ms as nat) + seq![0x0au8]
}

/// One line per process.
pub open spec fn process_lines(ps: Seq<ProcessEntry>) -> Seq<u8>
    decreases ps.len(),
{
    if ps.len() == 0 {
        Seq::empty()
    } else {
        process_lines(ps.drop_last()) + process_line(ps.last())
    }
}

fn push_process_line(out: &mut Vec<u8>, p: &ProcessEntry)
    ensures
        final(out)@ == old(out)@ + process_line(*p),
{
    crate::fmt::push_decimal(out, p.pid as u64);
    out.push(0x3a);
    crate::fmt::push_bytes(out, p.name.as_slice());
    out.push(0x3a);
    out.push(if p.running { 0x52 } else { 0x53 });
    out.push(0x3a);
    crate::fmt::push_decimal(out, p.priority as u64);
    out.push(0x3a);
    crate::fmt::push_decimal(out, p.cpu_time_ms);
    out.push(0x3a);
    crate::fmt::push_decimal(out, p.uptime_ms);
    out.push(0x0a);
    assert(final(out)@ =~= old(out)@ + process_line(*p));
}

/// The shell command's line: "pid:name:R|S:0:uptime_ms:cpu_ms".
pub open spec fn shell_command_line(c: ShellCommandEntry) -> Seq<u8> {
    crate::fmt::dec_text(c.pid as nat) + seq![0x3au8] + c.name@ + seq![0x3au8, run_letter(c.running), 0x3au8, 0x30u8, 0x3au8]
        + crate::fmt::dec_text(c.uptime_ms as nat) + seq![0x3au8] + crate::fmt::dec_text(c.cpu_time_ms as nat) + seq![0x0au8]
}

/// The whole process list: the processes, then the shell command.
pub open spec fn process_list_text(ps: Seq<ProcessEntry>, shell: Option<ShellCommandEntry>) -> Seq<u8> {
    process_lines(ps) + match shell {
        Some(c) => shell_command_line(c),
        None => Seq::empty(),
    }
}

/// The process list for a buffer of `buf_len` bytes.
pub fn sys_ps_list(ps: &Vec<ProcessEntry>, shell: &Option<ShellCommandEntry>, buf_is_null: bool, buf_len: usize) -> (r: (i64, Vec<u8>))
    requires
        process_list_text(ps@, *shell).len() <= i64::MAX,
    ensures
        ({
            let t = process_list_text(ps@, *shell);
            let n = if t.len() < buf_len { t.len() as int } else { buf_len as int };
            &&& buf_is_null ==> r.0 == -1 && r.1@.len() == 0
            &&& !buf_is_null ==> r.0 == n && r.1@ == t.take(n)
        }),
{
    let mut out: Vec<u8> = Vec::new();
    let mut i: usize = 0;
    while i < ps.len()
        invariant
            i <= ps@.len(),
            out@ == process_lines(ps@.take(i as int)),
        decreases ps@.len() - i,
    {
        push_process_line(&mut out, &ps[i]);
        proof {
            assert(ps@.take(i + 1).drop_last() =~= ps@.take(i as int));
        }
        i = i + 1;
    }
    assert(ps@.take(ps@.len() as int) =~= ps@);
    match shell {
        Some(c) => {
            crate::fmt::push_decimal(&mut out, c.pid as u64);
            out.push(0x3a);
            crate::fmt::push_bytes(&mut out, c.name.as_slice());
            out.push(0x3a);
            out.push(if c.running { 0x52 } else { 0x53 });
            out.push(0x3a);
            out.push(0x30);
            out.push(0x3a);
            crate::fmt::push_decimal(&mut out, c.uptime_ms);
            out.push(0x3a);
            crate::fmt::push_decimal(&mut out, c.cpu_time_ms);
            out.push(0x0a);
        },
        None => {},
    }
    assert(out@ =~= process_list_text(ps@, *shell));
    write_bytes(buf_is_null, out.as_slice(), buf_len)
}

/// The prefix that marks the contents of directory `path`: the path with a
/// trailing '/'.
pub open spec fn dir_prefix(path: Seq<u8>) -> Seq<u8> {
    if path.len() > 0 && path.last() == 0x2f {
        path
    } else {
        path.push(0x2f)
    }
}

/// Whether a listing holds something under `prefix`.
pub open spec fn any_under(names: Seq<Seq<u8>>, prefix: Seq<u8>) -> bool {
    exists|i: int| 0 <= i < names.len() && prefix.is_prefix_of(#[trigger] names[i])
}

fn dir_prefix_of(path: &[u8]) -> (r: Vec<u8>)
    ensures
        r@ == dir_prefix(path@),
{
    let mut v: Vec<u8> = Vec::new();
    crate::fmt::push_bytes(&mut v, path);
    if !(path.len() > 0 && path[path.len() - 1] == 0x2f) {
        v.push(0x2f);
    }
    v
}

fn any_under_exec(names: &Vec<Vec<u8>>, prefix: &Vec<u8>) -> (r: bool)
    ensures
        r == any_under(crate::text::byte_views(names@), prefix@),
{
    let ghost nv = crate::text::byte_views(names@);
    let mut i: usize = 0;
    while i < names.len()
        invariant
            i <= names@.len(),
            nv == crate::text::byte_views(names@),
            forall|k: int| 0 <= k < i ==> !prefix@.is_prefix_of(#[trigger] nv[k]),
        decreases names@.len() - i,
    {
        if crate::text::has_prefix(&names[i], prefix.as_slice()) {
            assert(prefix@.is_prefix_of(nv[i as int]));
            return true;
        }
        i = i + 1;
    }
    false
}

/// Whether `path` is a directory: 1 if the listing holds something under
/// it, 0 if not; -1 for a path that cannot be read or without a file system.
pub fn sys_fs_is_dir(path_is_null: bool, path: &[u8], names: Option<&Vec<Vec<u8>>>) -> (r: i64)
    ensures
        ({
            let readable = !path_is_null && path@.len() > 0 && vstd::utf8::valid_utf8(path@);
            r == (if !readable {
                -1i64
            } else {
                match names {
                    None => -1i64,
                    Some(ns) => if any_under(crate::text::byte_views(ns@), dir_prefix(path@)) {
                        1i64
                    } else {
                        0i64
                    },
                }
            })
        }),
{
    if read_str(path_is_null, path).is_none() {
        return -1;
    }
    match names {
        None => -1,
        Some(ns) => {
            let prefix = dir_prefix_of(path);
            if any_under_exec(ns, &prefix) {
                1
            } else {
                0
            }
        },
    }
}

/// The record `fs_stat` writes: the file's size (little-endian, 32 bits),
/// whether it exists, whether it is a directory. A path that is no file is
/// a directory when the listing holds something under it.
pub open spec fn stat_record(path: Seq<u8>, file_len: Option<usize>, names: Seq<Seq<u8>>) -> Seq<u8> {
    match file_len {
        Some(n) => {
            let size = (n as int) % 0x1_0000_0000;
            seq![(size % 256) as u8, ((size / 256) % 256) as u8, ((size / 65536) % 256) as u8, (size / 16777216) as u8, 1u8, 0u8]
        },
        None => if any_under(names, dir_prefix(path)) {
            seq![0u8, 0, 0, 0, 1, 1]
        } else {
            seq![0u8, 0, 0, 0, 0, 0]
        },
    }
}

/// Stat a path: -1 for a path that cannot be read or without a file system;
/// otherwise 0 with the record (see `stat_record`), given the file's length
/// if it could be read and the root listing.
pub fn sys_fs_stat(path_is_null: bool, path: &[u8], fs: Option<(Option<usize>, &Vec<Vec<u8>>)>) -> (r: (i64, Vec<u8>))
    ensures
        ({
            let readable = !path_is_null && path@.len() > 0 && vstd::utf8::valid_utf8(path@);
            if !readable || fs is None {
                r.0 == -1 && r.1@.len() == 0
            } else {
                let (fl, ns) = fs.unwrap();
                r.0 == 0 && r.1@ == stat_record(path@, fl, crate::text::byte_views(ns@))
            }
        }),
{
    if read_str(path_is_null, path).is_none() {
        return (-1, Vec::new());
    }
    let (file_len, names) = match fs {
        None => {
            return (-1, Vec::new());
        },
        Some(x) => x,
    };
    let mut out: Vec<u8> = Vec::new();
    match file_len {
        Some(n) => {
            let size: u64 = (n as u64) % 0x1_0000_0000;
            out.push((size % 256) as u8);
            out.push(((size / 256) % 256) as u8);
            out.push(((size / 65536) % 256) as u8);
            out.push((size / 16777216) as u8);
            out.push(1);
            out.push(0);
        },
        None => {
            let prefix = dir_prefix_of(path);
            let d = any_under_exec(names, &prefix);
            out.push(0);
            out.push(0);
            out.push(0);
            out.push(0);
            out.push(if d { 1 } else { 0 });
            out.push(if d { 1 } else { 0 });
        },
    }
    assert(out@ =~= stat_record(path@, file_len, crate::text::byte_views(names@)));
    (0, out)
}

/// `path` without its trailing '/'s.
pub open spec fn trim_trailing_slashes(path: Seq<u8>) -> Seq<u8>
    decreases path.len(),
{
    if path.len() > 0 && path.last() == 0x2f {
        trim_trailing_slashes(path.drop_last())
    } else {
        path
    }
}

/// The marker file that makes directory `path` exist: "<path>/.keep", the
/// path's trailing '/'s dropped first.
pub fn mkdir_keep_path(path: &[u8]) -> (r: Vec<u8>)
    ensures
        r@ == trim_trailing_slashes(path@) + seq![0x2fu8, 0x2e, 0x6b, 0x65, 0x65, 0x70],
{
    let mut end: usize = path.len();
    assert(path@.take(path@.len() as int) =~= path@);
    while end > 0 && path[end - 1] == 0x2f
        invariant
            end <= path@.len(),
            trim_trailing_slashes(path@) == trim_trailing_slashes(path@.take(end as int)),
        decreases end,
    {
        assert(path@.take(end as int).drop_last() =~= path@.take(end - 1));
        end = end - 1;
    }
    let mut out: Vec<u8> = Vec::new();
    let mut i: usize = 0;
    while i < end
        invariant
            i <= end,
            end <= path@.len(),
            out@ == path@.take(i as int),
        decreases end - i,
    {
        out.push(path[i]);
        i = i + 1;
        assert(out@ =~= path@.take(i as int));
    }
    assert(trim_trailing_slashes(path@.take(end as int)) == path@.take(end as int));
    crate::fmt::push_bytes(&mut out, &[0x2fu8, 0x2e, 0x6b, 0x65, 0x65, 0x70]);
    out
}

/// What waiting for a ping reply does next.
#[derive(Clone, Copy, PartialEq, Eq, Structural)]
pub enum PingWait {
    /// The deadline passed: the call returns -1.
    Timeout,
    /// The reply came: the call returns 0 with this round-trip time (ms).
    Reply(u32),
    /// Poll again.
    Waiting,
}

/// One turn of the ping call's wait: past the deadline it times out; a reply
/// from the target with our sequence number ends it; anything else waits.
pub fn ping_wait_step(now: i64, deadline: i64, timestamp: i64, target: [u8; 4], seq: u16, reply: Option<([u8; 4], u16, u16)>) -> (r: PingWait)
    requires
        i64::MIN <= now - timestamp <= i64::MAX,
    ensures
        now >= deadline ==> r == PingWait::Timeout,
        now < deadline ==> r == match reply {
            Some((ip, _, s)) => if ip == target && s == seq {
                PingWait::Reply((now - timestamp) as u32)
            } else {
                PingWait::Waiting
            },
            None => PingWait::Waiting,
        },
{
    if now >= deadline {
        return PingWait::Timeout;
    }
    match reply {
        Some((ip, _ident, s)) => {
            if crate::net::state::same_ip(ip, target) && s == seq {
                PingWait::Reply((now - timestamp) as u32)
            } else {
                PingWait::Waiting
            }
        },
        None => PingWait::Waiting,
    }
}

/// The 6-byte CPU record: state, utilization, current pid (little-endian);
/// -1 for an unknown or offline CPU or a null buffer.
pub fn sys_cpu_info(cpu: Option<(bool, u8, u8, u32)>, out_is_null: bool) -> (r: (i64, Vec<u8>))
    ensures
        match cpu {
            Some((online, state, util, pid)) => if online && !out_is_null {
                r.0 == 0 && r.1@ == seq![state, util, (pid % 256) as u8, ((pid / 256) % 256) as u8, ((pid / 65536) % 256) as u8, (pid / 16777216) as u8]
            } else {
                r.0 == -1 && r.1@.len() == 0
            },
            None => r.0 == -1 && r.1@.len() == 0,
        },
{
    match cpu {
        Some((online, state, util, pid)) => {
            if !online || out_is_null {
                return (-1, Vec::new());
            }
            let mut out: Vec<u8> = Vec::new();
            out.push(state);
            out.push(util);
            out.push((pid % 256) as u8);
            out.push(((pid / 256) % 256) as u8);
            out.push(((pid / 65536) % 256) as u8);
            out.push((pid / 16777216) as u8);
            assert(out@ =~= seq![state, util, (pid % 256) as u8, ((pid / 256) % 256) as u8, ((pid / 65536) % 256) as u8, (pid / 16777216) as u8]);
            (0, out)
        },
        None => (-1, Vec::new()),
    }
}

} // verus!
