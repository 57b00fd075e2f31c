//! Supervisor Binary Interface calls: which extension, function and
//! arguments each service uses, and how results read. The `ecall` itself is
//! made by the platform layer.
use vstd::prelude::*;

verus! {

pub const EID_LEGACY_SET_TIMER: u64 = 0x00;
pub const EID_LEGACY_PUTCHAR: u64 = 0x01;
pub const EID_LEGACY_GETCHAR: u64 = 0x02;
pub const EID_LEGACY_CLEAR_IPI: u64 = 0x03;
pub const EID_LEGACY_SEND_IPI: u64 = 0x04;
pub const EID_LEGACY_SHUTDOWN: u64 = 0x08;
/// "TIME"
pub const EID_TIMER: u64 = 0x54494D45;
/// "sPI"
pub const EID_IPI: u64 = 0x735049;
/// "SRST"
pub const EID_SRST: u64 = 0x53525354;
/// "HSM"
pub const EID_HSM: u64 = 0x48534D;

/// An SBI call: extension id (a7), function id (a6) and arguments (a0-a2).
#[derive(Clone, Copy, PartialEq, Eq, Structural)]
pub struct SbiCall {
    pub eid: u64,
    pub fid: u64,
    pub a0: u64,
    pub a1: u64,
    pub a2: u64,
}

/// What an SBI call returns (a0 and a1).
#[derive(Clone, Copy, PartialEq, Eq, Structural)]
pub struct SbiRet {
    pub error: i64,
    pub value: i64,
}

impl SbiRet {
    /// The call succeeded.
    pub fn is_ok(&self) -> (r: bool)
        ensures
            r == (self.error == 0),
    {
        self.error == 0
    }
}

/// A call with all three arguments.
pub fn sbi_call(eid: u64, fid: u64, a0: u64, a1: u64, a2: u64) -> (c: SbiCall)
    ensures
        c == (SbiCall { eid, fid, a0, a1, a2 }),
{
    SbiCall { eid, fid, a0, a1, a2 }
}

/// A call without arguments.
pub fn sbi_call_0(eid: u64, fid: u64) -> (c: SbiCall)
    ensures
        c == (SbiCall { eid, fid, a0: 0, a1: 0, a2: 0 }),
{
    sbi_call(eid, fid, 0, 0, 0)
}

/// A call with one argument.
pub fn sbi_call_1(eid: u64, fid: u64, a0: u64) -> (c: SbiCall)
    ensures
        c == (SbiCall { eid, fid, a0, a1: 0, a2: 0 }),
{
    sbi_call(eid, fid, a0, 0, 0)
}

/// A call with two arguments.
pub fn sbi_call_2(eid: u64, fid: u64, a0: u64, a1: u64) -> (c: SbiCall)
    ensures
        c == (SbiCall { eid, fid, a0, a1, a2: 0 }),
{
    sbi_call(eid, fid, a0, a1, 0)
}

/// Program the next timer interrupt (TIME extension).
pub fn set_timer(stime_value: u64) -> (c: SbiCall)
    ensures
        c == (SbiCall { eid: EID_TIMER, fid: 0, a0: stime_value, a1: 0, a2: 0 }),
{
    sbi_call_1(EID_TIMER, 0, stime_value)
}

/// Program the next timer interrupt (legacy extension).
pub fn legacy_set_timer(stime_value: u64) -> (c: SbiCall)
    ensures
        c == (SbiCall { eid: EID_LEGACY_SET_TIMER, fid: 0, a0: stime_value, a1: 0, a2: 0 }),
{
    sbi_call_1(EID_LEGACY_SET_TIMER, 0, stime_value)
}

/// Send an IPI to the harts of `hart_mask`, counted from `hart_mask_base`.
pub fn send_ipi(hart_mask: u64, hart_mask_base: i64) -> (c: SbiCall)
    ensures
        c == (SbiCall { eid: EID_IPI, fid: 0, a0: hart_mask, a1: hart_mask_base as u64, a2: 0 }),
{
    sbi_call_2(EID_IPI, 0, hart_mask, hart_mask_base as u64)
}

/// Clear the pending IPI (legacy extension).
pub fn clear_ipi() -> (c: SbiCall)
    ensures
        c == (SbiCall { eid: EID_LEGACY_CLEAR_IPI, fid: 0, a0: 0, a1: 0, a2: 0 }),
{
    sbi_call_0(EID_LEGACY_CLEAR_IPI, 0)
}

/// Write a character to the firmware console.
pub fn console_putchar(ch: u8) -> (c: SbiCall)
    ensures
        c == (SbiCall { eid: EID_LEGACY_PUTCHAR, fid: 0, a0: ch as u64, a1: 0, a2: 0 }),
{
    sbi_call_1(EID_LEGACY_PUTCHAR, 0, ch as u64)
}

/// The call that reads a character from the firmware console.
pub fn getchar_call() -> (c: SbiCall)
    ensures
        c == (SbiCall { eid: EID_LEGACY_GETCHAR, fid: 0, a0: 0, a1: 0, a2: 0 }),
{
    sbi_call_0(EID_LEGACY_GETCHAR, 0)
}

/// The character the getchar call returned: the low byte of a0 when it is
/// not negative, else none was waiting.
pub fn console_getchar(ret: SbiRet) -> (r: Option<u8>)
    ensures
        ret.error >= 0 ==> r == Some(ret.error as u8),
        ret.error < 0 ==> r is None,
{
    if ret.error >= 0 {
        Some(ret.error as u8)
    } else {
        None
    }
}

/// Power off: the SRST shutdown, then the legacy shutdown should that return.
pub fn shutdown() -> (calls: Vec<SbiCall>)
    ensures
        calls@ == seq![
            SbiCall { eid: EID_SRST, fid: 0, a0: 0, a1: 0, a2: 0 },
            SbiCall { eid: EID_LEGACY_SHUTDOWN, fid: 0, a0: 0, a1: 0, a2: 0 },
        ],
{
    let mut calls: Vec<SbiCall> = Vec::new();
    calls.push(sbi_call_2(EID_SRST, 0, 0, 0));
    calls.push(sbi_call_0(EID_LEGACY_SHUTDOWN, 0));
    assert(calls@ =~= seq![
        SbiCall { eid: EID_SRST, fid: 0, a0: 0, a1: 0, a2: 0 },
        SbiCall { eid: EID_LEGACY_SHUTDOWN, fid: 0, a0: 0, a1: 0, a2: 0 },
    ]);
    calls
}

/// Cold reboot (SRST type 1).
pub fn reboot() -> (c: SbiCall)
    ensures
        c == (SbiCall { eid: EID_SRST, fid: 0, a0: 1, a1: 0, a2: 0 }),
{
    sbi_call_2(EID_SRST, 0, 1, 0)
}

/// Start a hart at `start_addr` with `opaque` in a1 (HSM extension).
pub fn hart_start(hartid: usize, start_addr: u64, opaque: u64) -> (c: SbiCall)
    ensures
        c == (SbiCall { eid: EID_HSM, fid: 0, a0: hartid as u64, a1: start_addr, a2: opaque }),
{
    sbi_call(EID_HSM, 0, hartid as u64, start_addr, opaque)
}

/// Ask for a hart's state (HSM extension).
pub fn hart_get_status(hartid: usize) -> (c: SbiCall)
    ensures
        c == (SbiCall { eid: EID_HSM, fid: 2, a0: hartid as u64, a1: 0, a2: 0 }),
{
    sbi_call_1(EID_HSM, 2, hartid as u64)
}

} // verus!
