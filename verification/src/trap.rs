//! Supervisor traps: what a trap cause means, how an exception is resumed,
//! and when the next timer interrupt is due.
use vstd::prelude::*;
use crate::sbi::{set_timer, SbiCall, EID_TIMER};

verus! {

pub const SUPERVISOR_SOFTWARE_INTERRUPT: u64 = 0x8000_0000_0000_0001;
pub const SUPERVISOR_TIMER_INTERRUPT: u64 = 0x8000_0000_0000_0005;
pub const SUPERVISOR_EXTERNAL_INTERRUPT: u64 = 0x8000_0000_0000_0009;
pub const INSTRUCTION_ADDRESS_MISALIGNED: u64 = 0;
pub const INSTRUCTION_ACCESS_FAULT: u64 = 1;
pub const ILLEGAL_INSTRUCTION: u64 = 2;
pub const BREAKPOINT: u64 = 3;
pub const LOAD_ADDRESS_MISALIGNED: u64 = 4;
pub const LOAD_ACCESS_FAULT: u64 = 5;
pub const STORE_ADDRESS_MISALIGNED: u64 = 6;
pub const STORE_ACCESS_FAULT: u64 = 7;
pub const ECALL_FROM_U_MODE: u64 = 8;
pub const ECALL_FROM_S_MODE: u64 = 9;
pub const INSTRUCTION_PAGE_FAULT: u64 = 12;
pub const LOAD_PAGE_FAULT: u64 = 13;
pub const STORE_PAGE_FAULT: u64 = 15;

/// Timer ticks between interrupts (about 10 ms at 10 MHz).
pub const TIMER_INTERVAL: u64 = 100_000;

/// The interrupt bit of `scause` (its top bit).
pub const INTERRUPT_BIT: u64 = 0x8000_0000_0000_0000;

/// The SBI call that arms the next timer interrupt, one interval after `now`
/// (counted modulo 2^64).
pub fn schedule_timer_interrupt(now: u64) -> (c: SbiCall)
    ensures
        c == (SbiCall { eid: EID_TIMER, fid: 0, a0: now.wrapping_add(TIMER_INTERVAL), a1: 0, a2: 0 }),
{
    set_timer(now.wrapping_add(TIMER_INTERVAL))
}

/// What a trap is.
#[derive(Clone, Copy, PartialEq, Eq, Structural)]
pub enum TrapKind {
    /// Timer: re-arm the timer and ask the scheduler to switch.
    Timer,
    /// Inter-processor interrupt: clear it.
    Software,
    /// From the interrupt controller.
    External,
    /// Another interrupt: logged.
    UnknownInterrupt(u64),
    /// A synchronous exception with this code.
    Exception(u64),
}

/// Decode `scause`: the top bit marks an interrupt; the rest is the code.
pub fn classify_trap(scause: u64) -> (k: TrapKind)
    ensures
        scause >= INTERRUPT_BIT ==> k == if scause == SUPERVISOR_TIMER_INTERRUPT {
            TrapKind::Timer
        } else if scause == SUPERVISOR_SOFTWARE_INTERRUPT {
            TrapKind::Software
        } else if scause == SUPERVISOR_EXTERNAL_INTERRUPT {
            TrapKind::External
        } else {
            TrapKind::UnknownInterrupt(scause)
        },
        scause < INTERRUPT_BIT ==> k == TrapKind::Exception(scause),
{
    if scause >= INTERRUPT_BIT {
        if scause == 0x8000_0000_0000_0005u64 {
            TrapKind::Timer
        } else if scause == 0x8000_0000_0000_0001u64 {
            TrapKind::Software
        } else if scause == 0x8000_0000_0000_0009u64 {
            TrapKind::External
        } else {
            TrapKind::UnknownInterrupt(scause)
        }
    } else {
        let code = scause & 0x7FFF_FFFF_FFFF_FFFF;
        assert(scause < 0x8000_0000_0000_0000u64 ==> scause & 0x7FFF_FFFF_FFFF_FFFFu64 == scause) by (bit_vector);
        TrapKind::Exception(code)
    }
}

/// How an exception is resumed.
#[derive(Clone, Copy, PartialEq, Eq, Structural)]
pub enum ExceptionAction {
    /// Continue after the trapping instruction, this many bytes on.
    Skip(u64),
    /// Fatal: the kernel stops.
    Fatal,
}

/// System calls resume after their 4-byte `ecall`, breakpoints after their
/// 2-byte `c.ebreak`; every other exception is fatal.
pub fn exception_action(cause: u64) -> (a: ExceptionAction)
    ensures
        a == if cause == ECALL_FROM_U_MODE || cause == ECALL_FROM_S_MODE {
            ExceptionAction::Skip(4)
        } else if cause == BREAKPOINT {
            ExceptionAction::Skip(2)
        } else {
            ExceptionAction::Fatal
        },
{
    if cause == 8 || cause == 9 {
        ExceptionAction::Skip(4)
    } else if cause == 3 {
        ExceptionAction::Skip(2)
    } else {
        ExceptionAction::Fatal
    }
}

/// The `sie` bits the kernel enables: software (1), timer (5), external (9).
pub const SIE_BITS: u64 = 0x222;
/// The `sstatus` bit that enables supervisor interrupts.
pub const SSTATUS_SIE: u64 = 0x2;

/// Whether interrupts are on, by `sstatus`.
pub fn interrupts_enabled(sstatus: u64) -> (r: bool)
    ensures
        r == (sstatus & SSTATUS_SIE != 0),
{
    sstatus & SSTATUS_SIE != 0
}

} // verus!
