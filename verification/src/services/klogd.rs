//! Kernel logging: the queue of lines waiting to be appended to the log files,
//! the log records of the logging calls, and the klogd daemon's schedule.
use vstd::prelude::*;
use vstd::string::StringSliceAdditionalSpecFns;
use crate::fmt::{push_bytes, push_decimal, push_signed_decimal, dec_text, signed_dec_text};
use crate::text::str_from_utf8;

verus! {

/// Lines the queue holds.
pub const LOG_BUFFER_SIZE: usize = 128;
/// Longest line kept (longer lines are cut).
pub const LOG_LINE_MAX: usize = 128;
/// klogd waits this long after boot before its first entry.
pub const KLOGD_START_DELAY_MS: i64 = 10000;
/// klogd writes a heap report this often.
pub const KLOGD_PERIOD_MS: i64 = 5000;
/// The service skips calling the tick until this much time has passed.
pub const KLOGD_SERVICE_PERIOD_MS: i64 = 4000;

/// Which log file a line goes to.
#[derive(Clone, Copy, PartialEq, Eq, Structural)]
pub enum LogTarget {
    /// /var/log/kernel.log
    Kernel,
    /// /var/log/sysmond.log
    Sysmond,
}

/// Severity of a kernel log message, most severe first.
#[derive(Clone, Copy, PartialEq, Eq, Structural)]
pub enum LogLevel {
    Emergency,
    Alert,
    Critical,
    Error,
    Warning,
    Notice,
    Info,
    Debug,
    Trace,
}

/// A queued line.
pub struct SimpleLogEntry {
    pub data: Vec<u8>,
    pub target: LogTarget,
}

/// Lines waiting for hart 0 to write them out.
pub struct SimpleLogBuffer {
    pub entries: Vec<SimpleLogEntry>,
    pub last_flush_ms: i64,
}

/// The queued lines, oldest first.
pub open spec fn queued(b: &SimpleLogBuffer) -> Seq<(Seq<u8>, LogTarget)> {
    b.entries@.map_values(|e: SimpleLogEntry| (e.data@, e.target))
}

/// The lines that are valid UTF-8, in order (the others are dropped when the
/// queue is drained).
pub open spec fn utf8_lines(s: Seq<(Seq<u8>, LogTarget)>) -> Seq<(Seq<u8>, LogTarget)>
    decreases s.len(),
{
    if s.len() == 0 {
        s
    } else {
        let rest = utf8_lines(s.drop_last());
        if vstd::utf8::valid_utf8(s.last().0) {
            rest.push(s.last())
        } else {
            rest
        }
    }
}

/// A line as queued: its first `LOG_LINE_MAX` bytes.
pub open spec fn clipped(line: Seq<u8>) -> Seq<u8> {
    if line.len() > LOG_LINE_MAX {
        line.take(LOG_LINE_MAX as int)
    } else {
        line
    }
}

impl SimpleLogBuffer {
    pub open spec fn wf(&self) -> bool {
        self.entries@.len() <= LOG_BUFFER_SIZE
    }

    pub fn new() -> (b: Self)
        ensures
            b.wf(),
            queued(&b).len() == 0,
            b.last_flush_ms == 0,
    {
        SimpleLogBuffer { entries: Vec::new(), last_flush_ms: 0 }
    }

    /// Queue a line (cut to `LOG_LINE_MAX` bytes); when the queue is full the
    /// oldest line is dropped first.
    pub fn push(&mut self, line: &str, target: LogTarget)
        requires
            old(self).wf(),
        ensures
            final(self).wf(),
            final(self).last_flush_ms == old(self).last_flush_ms,
            queued(final(self)) == (if queued(old(self)).len() >= LOG_BUFFER_SIZE {
                queued(old(self)).drop_first()
            } else {
                queued(old(self))
            }).push((clipped(line.spec_bytes()), target)),
    {
        let ghost q0 = queued(self);
        if self.entries.len() >= LOG_BUFFER_SIZE {
            self.entries.remove(0);
            assert(queued(self) =~= q0.drop_first());
        }
        let ghost q1 = queued(self);
        let bytes = line.as_bytes();
        let n = if bytes.len() < LOG_LINE_MAX {
            bytes.len()
        } else {
            LOG_LINE_MAX
        };
        let mut data: Vec<u8> = Vec::new();
        let mut i: usize = 0;
        while i < n
            invariant
                n <= bytes@.len(),
                i <= n,
                data@ == bytes@.take(i as int),
            decreases n - i,
        {
            data.push(bytes[i]);
            i = i + 1;
            assert(data@ =~= bytes@.take(i as int));
        }
        assert(data@ =~= clipped(line.spec_bytes()));
        self.entries.push(SimpleLogEntry { data, target });
        assert(queued(self) =~= q1.push((clipped(line.spec_bytes()), target)));
    }

    /// Take every queued line that is valid UTF-8, oldest first, and empty the queue.
    pub fn drain(&mut self) -> (r: Vec<(Vec<u8>, LogTarget)>)
        requires
            old(self).wf(),
        ensures
            final(self).wf(),
            queued(final(self)).len() == 0,
            final(self).last_flush_ms == old(self).last_flush_ms,
            r@.map_values(|p: (Vec<u8>, LogTarget)| (p.0@, p.1)) == utf8_lines(queued(old(self))),
    {
        let ghost q = queued(self);
        let mut entries: Vec<SimpleLogEntry> = Vec::new();
        std::mem::swap(&mut entries, &mut self.entries);
        let mut result: Vec<(Vec<u8>, LogTarget)> = Vec::new();
        let mut i: usize = 0;
        while i < entries.len()
            invariant
                i <= entries@.len(),
                q == entries@.map_values(|e: SimpleLogEntry| (e.data@, e.target)),
                result@.map_values(|p: (Vec<u8>, LogTarget)| (p.0@, p.1)) == utf8_lines(q.take(i as int)),
            decreases entries@.len() - i,
        {
            let e = &entries[i];
            let ghost before = result@.map_values(|p: (Vec<u8>, LogTarget)| (p.0@, p.1));
            assert(q.take(i + 1).drop_last() =~= q.take(i as int));
            assert(q.take(i + 1).last() == (e.data@, e.target));
            if str_from_utf8(e.data.as_slice()).is_some() {
                result.push((e.data.clone(), e.target));
                assert(result@.map_values(|p: (Vec<u8>, LogTarget)| (p.0@, p.1)) =~= before.push(
                    (e.data@, e.target),
                ));
            }
            i = i + 1;
        }
        assert(q.take(entries@.len() as int) =~= q);
        assert(queued(self) =~= Seq::<(Seq<u8>, LogTarget)>::empty());
        result
    }

    /// Whether lines are waiting.
    pub fn has_entries(&self) -> (r: bool)
        ensures
            r == (queued(self).len() > 0),
    {
        self.entries.len() > 0
    }

    /// Time since the queue was last flushed.
    pub fn time_since_flush(&self, now: i64) -> (r: i64)
        requires
            i64::MIN <= now - self.last_flush_ms <= i64::MAX,
        ensures
            r == now - self.last_flush_ms,
    {
        now - self.last_flush_ms
    }

    /// Record a flush at `now`.
    pub fn mark_flushed(&mut self, now: i64)
        ensures
            final(self).last_flush_ms == now,
            queued(final(self)) == queued(old(self)),
    {
        self.last_flush_ms = now;
    }
}

/// Queue a line for a log file.
pub fn queue_log(buffer: &mut SimpleLogBuffer, line: &str, target: LogTarget)
    requires
        old(buffer).wf(),
    ensures
        final(buffer).wf(),
        final(buffer).last_flush_ms == old(buffer).last_flush_ms,
        queued(final(buffer)) == (if queued(old(buffer)).len() >= LOG_BUFFER_SIZE {
            queued(old(buffer)).drop_first()
        } else {
            queued(old(buffer))
        }).push((clipped(line.spec_bytes()), target)),
{
    buffer.push(line, target);
}

/// Queue a line for sysmond's log.
pub fn queue_sysmond_log(buffer: &mut SimpleLogBuffer, line: &str)
    requires
        old(buffer).wf(),
    ensures
        final(buffer).wf(),
        final(buffer).last_flush_ms == old(buffer).last_flush_ms,
        queued(final(buffer)) == (if queued(old(buffer)).len() >= LOG_BUFFER_SIZE {
            queued(old(buffer)).drop_first()
        } else {
            queued(old(buffer))
        }).push((clipped(line.spec_bytes()), LogTarget::Sysmond)),
{
    queue_log(buffer, line, LogTarget::Sysmond);
}

/// The lines of a flush, by file.
pub struct FlushBatch {
    /// Lines for /var/log/kernel.log, in order.
    pub kernel_lines: Vec<Vec<u8>>,
    /// Lines for /var/log/sysmond.log, in order.
    pub sysmond_lines: Vec<Vec<u8>>,
    /// Lines drained.
    pub count: usize,
}

/// The lines of `s` bound for `t`, in order.
pub open spec fn lines_for(s: Seq<(Seq<u8>, LogTarget)>, t: LogTarget) -> Seq<Seq<u8>>
    decreases s.len(),
{
    if s.len() == 0 {
        Seq::empty()
    } else if s.last().1 == t {
        lines_for(s.drop_last(), t).push(s.last().0)
    } else {
        lines_for(s.drop_last(), t)
    }
}

/// A line is among those bound for `t` exactly when it was queued for `t`;
/// and every queued line goes to one of the two logs.
pub proof fn lemma_lines_for_target(s: Seq<(Seq<u8>, LogTarget)>, t: LogTarget)
    ensures
        forall|x: Seq<u8>|
            #[trigger] lines_for(s, t).contains(x) <==> exists|i: int| 0 <= i < s.len() && s[i].0 == x && s[i].1 == t,
        lines_for(s, LogTarget::Kernel).len() + lines_for(s, LogTarget::Sysmond).len() == s.len(),
    decreases s.len(),
{
    if s.len() > 0 {
        let p = s.drop_last();
        lemma_lines_for_target(p, t);
        assert forall|x: Seq<u8>|
            #[trigger] lines_for(s, t).contains(x) <==> exists|i: int| 0 <= i < s.len() && s[i].0 == x && s[i].1 == t by {
            if lines_for(s, t).contains(x) {
                if s.last().1 == t && x == s.last().0 {
                    assert(s[s.len() - 1].0 == x && s[s.len() - 1].1 == t);
                } else {
                    if s.last().1 == t {
                        let k = choose|k: int| 0 <= k < lines_for(s, t).len() && lines_for(s, t)[k] == x;
                        assert(k < lines_for(p, t).len());
                        assert(lines_for(p, t)[k] == x);
                        assert(lines_for(p, t).contains(x));
                    }
                    let i = choose|i: int| 0 <= i < p.len() && p[i].0 == x && p[i].1 == t;
                    assert(s[i] == p[i]);
                }
            }
            if exists|i: int| 0 <= i < s.len() && s[i].0 == x && s[i].1 == t {
                let i = choose|i: int| 0 <= i < s.len() && s[i].0 == x && s[i].1 == t;
                if i == s.len() - 1 {
                    assert(lines_for(s, t) == lines_for(p, t).push(x));
                    assert(lines_for(s, t)[lines_for(p, t).len() as int] == x);
                } else {
                    assert(p[i] == s[i]);
                    assert(lines_for(p, t).contains(x));
                    let k = choose|k: int| 0 <= k < lines_for(p, t).len() && lines_for(p, t)[k] == x;
                    if s.last().1 == t {
                        assert(lines_for(s, t)[k] == x);
                    }
                }
            }
        }
    }
}

pub open spec fn byte_lines(v: Seq<Vec<u8>>) -> Seq<Seq<u8>> {
    v.map_values(|l: Vec<u8>| l@)
}

/// Drain the queue at `now` and sort its lines by file; each file then gets
/// its lines appended, one per line (the caller does the file system part).
pub fn flush_logs(buffer: &mut SimpleLogBuffer, now: i64) -> (r: FlushBatch)
    requires
        old(buffer).wf(),
    ensures
        final(buffer).wf(),
        queued(final(buffer)).len() == 0,
        final(buffer).last_flush_ms == now,
        r.count == utf8_lines(queued(old(buffer))).len(),
        byte_lines(r.kernel_lines@) == lines_for(utf8_lines(queued(old(buffer))), LogTarget::Kernel),
        byte_lines(r.sysmond_lines@) == lines_for(utf8_lines(queued(old(buffer))), LogTarget::Sysmond),
{
    let entries = buffer.drain();
    buffer.mark_flushed(now);
    let ghost d = entries@.map_values(|p: (Vec<u8>, LogTarget)| (p.0@, p.1));
    let mut kernel_lines: Vec<Vec<u8>> = Vec::new();
    let mut sysmond_lines: Vec<Vec<u8>> = Vec::new();
    let mut i: usize = 0;
    while i < entries.len()
        invariant
            i <= entries@.len(),
            d == entries@.map_values(|p: (Vec<u8>, LogTarget)| (p.0@, p.1)),
            byte_lines(kernel_lines@) == lines_for(d.take(i as int), LogTarget::Kernel),
            byte_lines(sysmond_lines@) == lines_for(d.take(i as int), LogTarget::Sysmond),
        decreases entries@.len() - i,
    {
        let (line, target) = (entries[i].0.clone(), entries[i].1);
        assert(d.take(i + 1).drop_last() =~= d.take(i as int));
        assert(d.take(i + 1).last() == (line@, target));
        let ghost k0 = byte_lines(kernel_lines@);
        let ghost s0 = byte_lines(sysmond_lines@);
        match target {
            LogTarget::Kernel => {
                kernel_lines.push(line);
                assert(byte_lines(kernel_lines@) =~= k0.push(d[i as int].0));
            },
            LogTarget::Sysmond => {
                sysmond_lines.push(line);
                assert(byte_lines(sysmond_lines@) =~= s0.push(d[i as int].0));
            },
        }
        i = i + 1;
    }
    assert(d.take(entries@.len() as int) =~= d);
    FlushBatch { kernel_lines, sysmond_lines, count: entries.len() }
}

/// Same as `flush_logs`.
pub fn flush_log_buffer(buffer: &mut SimpleLogBuffer, now: i64) -> (r: FlushBatch)
    requires
        old(buffer).wf(),
    ensures
        final(buffer).wf(),
        queued(final(buffer)).len() == 0,
        final(buffer).last_flush_ms == now,
        r.count == utf8_lines(queued(old(buffer))).len(),
        byte_lines(r.kernel_lines@) == lines_for(utf8_lines(queued(old(buffer))), LogTarget::Kernel),
        byte_lines(r.sysmond_lines@) == lines_for(utf8_lines(queued(old(buffer))), LogTarget::Sysmond),
{
    flush_logs(buffer, now)
}

/// A log file's new contents: what it held, then each line and a newline.
pub open spec fn appended(content: Seq<u8>, lines: Seq<Seq<u8>>) -> Seq<u8>
    decreases lines.len(),
{
    if lines.len() == 0 {
        content
    } else {
        appended(content, lines.drop_last()) + lines.last() + seq![0x0au8]
    }
}

/// Append lines, each followed by a newline, to a log file's contents.
pub fn append_lines(content: &mut Vec<u8>, lines: &Vec<Vec<u8>>)
    ensures
        final(content)@ == appended(old(content)@, byte_lines(lines@)),
{
    let ghost lv = byte_lines(lines@);
    let mut i: usize = 0;
    while i < lines.len()
        invariant
            i <= lines@.len(),
            lv == byte_lines(lines@),
            content@ == appended(old(content)@, lv.take(i as int)),
        decreases lines@.len() - i,
    {
        assert(lv.take(i + 1).drop_last() =~= lv.take(i as int));
        push_bytes(content, lines[i].as_slice());
        content.push(0x0a);
        i = i + 1;
    }
    assert(lv.take(lines@.len() as int) =~= lv);
}

// ─── Logging calls ────────────────────────────────────────────────────────────

/// A message for the kernel log buffer.
pub struct LogRecord {
    pub level: LogLevel,
    pub subsystem: Vec<u8>,
    pub message: Vec<u8>,
}

fn record(level: LogLevel, subsystem: &str, message: &str) -> (r: LogRecord)
    ensures
        r.level == level,
        r.subsystem@ == subsystem.spec_bytes(),
        r.message@ == message.spec_bytes(),
{
    let mut s: Vec<u8> = Vec::new();
    push_bytes(&mut s, subsystem.as_bytes());
    let mut m: Vec<u8> = Vec::new();
    push_bytes(&mut m, message.as_bytes());
    LogRecord { level, subsystem: s, message: m }
}

/// An emergency message.
pub fn klog_emergency(subsystem: &str, message: &str) -> (r: LogRecord)
    ensures
        r.level == LogLevel::Emergency,
        r.subsystem@ == subsystem.spec_bytes(),
        r.message@ == message.spec_bytes(),
{
    record(LogLevel::Emergency, subsystem, message)
}

/// An alert message.
pub fn klog_alert(subsystem: &str, message: &str) -> (r: LogRecord)
    ensures
        r.level == LogLevel::Alert,
        r.subsystem@ == subsystem.spec_bytes(),
        r.message@ == message.spec_bytes(),
{
    record(LogLevel::Alert, subsystem, message)
}

/// A critical message.
pub fn klog_critical(subsystem: &str, message: &str) -> (r: LogRecord)
    ensures
        r.level == LogLevel::Critical,
        r.subsystem@ == subsystem.spec_bytes(),
        r.message@ == message.spec_bytes(),
{
    record(LogLevel::Critical, subsystem, message)
}

/// An error message.
pub fn klog_error(subsystem: &str, message: &str) -> (r: LogRecord)
    ensures
        r.level == LogLevel::Error,
        r.subsystem@ == subsystem.spec_bytes(),
        r.message@ == message.spec_bytes(),
{
    record(LogLevel::Error, subsystem, message)
}

/// A warning.
pub fn klog_warning(subsystem: &str, message: &str) -> (r: LogRecord)
    ensures
        r.level == LogLevel::Warning,
        r.subsystem@ == subsystem.spec_bytes(),
        r.message@ == message.spec_bytes(),
{
    record(LogLevel::Warning, subsystem, message)
}

/// A notice.
pub fn klog_notice(subsystem: &str, message: &str) -> (r: LogRecord)
    ensures
        r.level == LogLevel::Notice,
        r.subsystem@ == subsystem.spec_bytes(),
        r.message@ == message.spec_bytes(),
{
    record(LogLevel::Notice, subsystem, message)
}

/// An informational message.
pub fn klog_info(subsystem: &str, message: &str) -> (r: LogRecord)
    ensures
        r.level == LogLevel::Info,
        r.subsystem@ == subsystem.spec_bytes(),
        r.message@ == message.spec_bytes(),
{
    record(LogLevel::Info, subsystem, message)
}

/// A debug message.
pub fn klog_debug(subsystem: &str, message: &str) -> (r: LogRecord)
    ensures
        r.level == LogLevel::Debug,
        r.subsystem@ == subsystem.spec_bytes(),
        r.message@ == message.spec_bytes(),
{
    record(LogLevel::Debug, subsystem, message)
}

/// A trace message.
pub fn klog_trace(subsystem: &str, message: &str) -> (r: LogRecord)
    ensures
        r.level == LogLevel::Trace,
        r.subsystem@ == subsystem.spec_bytes(),
        r.message@ == message.spec_bytes(),
{
    record(LogLevel::Trace, subsystem, message)
}

/// How the kernel log buffer shows messages.
pub struct LogSettings {
    /// The least severe level shown.
    pub level: LogLevel,
    /// Messages are echoed to the console.
    pub console: bool,
}

/// Set the least severe level shown.
pub fn set_log_level(settings: &mut LogSettings, level: LogLevel)
    ensures
        final(settings).level == level,
        final(settings).console == old(settings).console,
{
    settings.level = level;
}

/// Turn console echo on or off.
pub fn set_console_output(settings: &mut LogSettings, enabled: bool)
    ensures
        final(settings).console == enabled,
        final(settings).level == old(settings).level,
{
    settings.console = enabled;
}

// ─── The daemon ───────────────────────────────────────────────────────────────

/// klogd's schedule.
pub struct KlogdState {
    pub last_run: i64,
    pub tick: usize,
    pub initialized: bool,
}

/// The "[now] klogd: started" line.
pub open spec fn started_line(now: int) -> Seq<u8> {
    seq![0x5bu8] + signed_dec_text(now) + seq![0x5du8, 0x20, 0x6b, 0x6c, 0x6f, 0x67, 0x64, 0x3a, 0x20, 0x73,
        0x74, 0x61, 0x72, 0x74, 0x65, 0x64]
}

/// The "[now] klogd[tick]: heap_used=UKB heap_free=FKB" line.
pub open spec fn heap_line(now: int, tick: nat, used: nat, free: nat) -> Seq<u8> {
    seq![0x5bu8] + signed_dec_text(now) + seq![0x5du8, 0x20, 0x6b, 0x6c, 0x6f, 0x67, 0x64, 0x5b]
        + dec_text(tick) + seq![0x5du8, 0x3a, 0x20, 0x68, 0x65, 0x61, 0x70, 0x5f, 0x75, 0x73, 0x65,
        0x64, 0x3d] + dec_text(used / 1024) + seq![0x4bu8, 0x42, 0x20, 0x68, 0x65, 0x61, 0x70, 0x5f,
        0x66, 0x72, 0x65, 0x65, 0x3d] + dec_text(free / 1024) + seq![0x4bu8, 0x42]
}

impl KlogdState {
    pub fn new() -> (s: Self)
        ensures
            s.last_run == 0,
            s.tick == 0,
            !s.initialized,
    {
        KlogdState { last_run: 0, tick: 0, initialized: false }
    }
}

/// One klogd step at `now` with the heap's (used, free) bytes: the first run,
/// ten seconds after boot, logs that klogd started; after that a heap report
/// every five seconds. Returns the line to queue for the kernel log.
pub fn klogd_tick(st: &mut KlogdState, now: i64, heap_used: usize, heap_free: usize) -> (r: Option<Vec<u8>>)
    requires
        old(st).initialized ==> i64::MIN <= now - old(st).last_run <= i64::MAX,
        old(st).tick < usize::MAX,
    ensures
        !old(st).initialized && now < KLOGD_START_DELAY_MS ==> r is None && *final(st) == *old(st),
        !old(st).initialized && now >= KLOGD_START_DELAY_MS ==> {
            &&& final(st).initialized
            &&& final(st).last_run == now
            &&& final(st).tick == old(st).tick
            &&& r matches Some(l) && l@ == started_line(now as int)
        },
        old(st).initialized && now - old(st).last_run < KLOGD_PERIOD_MS ==> r is None && *final(st)
            == *old(st),
        old(st).initialized && now - old(st).last_run >= KLOGD_PERIOD_MS ==> {
            &&& final(st).initialized
            &&& final(st).last_run == now
            &&& final(st).tick == old(st).tick + 1
            &&& r matches Some(l) && l@ == heap_line(
                now as int,
                final(st).tick as nat,
                heap_used as nat,
                heap_free as nat,
            )
        },
{
    if !st.initialized {
        if now < KLOGD_START_DELAY_MS {
            return None;
        }
        st.initialized = true;
        st.last_run = now;
        let mut line: Vec<u8> = Vec::new();
        line.push(0x5b);
        push_signed_decimal(&mut line, now);
        push_bytes(&mut line, &[0x5du8, 0x20, 0x6b, 0x6c, 0x6f, 0x67, 0x64, 0x3a, 0x20, 0x73, 0x74, 0x61, 0x72, 0x74, 0x65, 0x64]);
        assert(line@ =~= started_line(now as int));
        return Some(line);
    }
    if now - st.last_run < KLOGD_PERIOD_MS {
        return None;
    }
    st.last_run = now;
    st.tick = st.tick + 1;
    let mut line: Vec<u8> = Vec::new();
    line.push(0x5b);
    push_signed_decimal(&mut line, now);
    push_bytes(&mut line, &[0x5du8, 0x20, 0x6b, 0x6c, 0x6f, 0x67, 0x64, 0x5b]);
    push_decimal(&mut line, st.tick as u64);
    push_bytes(&mut line, &[0x5du8, 0x3a, 0x20, 0x68, 0x65, 0x61, 0x70, 0x5f, 0x75, 0x73, 0x65, 0x64, 0x3d]);
    push_decimal(&mut line, (heap_used / 1024) as u64);
    push_bytes(&mut line, &[0x4bu8, 0x42, 0x20, 0x68, 0x65, 0x61, 0x70, 0x5f, 0x66, 0x72, 0x65, 0x65, 0x3d]);
    push_decimal(&mut line, (heap_free / 1024) as u64);
    push_bytes(&mut line, &[0x4bu8, 0x42]);
    assert(line@ =~= heap_line(now as int, st.tick as nat, heap_used as nat, heap_free as nat));
    Some(line)
}

/// Whether the service calls the tick at `now`: always before klogd has
/// started, afterwards once four seconds have passed since its last run.
pub fn klogd_service(st: &KlogdState, now: i64) -> (run: bool)
    requires
        st.initialized ==> i64::MIN <= now - st.last_run <= i64::MAX,
    ensures
        run == !(st.initialized && now - st.last_run < KLOGD_SERVICE_PERIOD_MS),
{
    !(st.initialized && now - st.last_run < KLOGD_SERVICE_PERIOD_MS)
}

} // verus!
