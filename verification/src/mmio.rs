//! Register accesses that drivers ask the platform layer to perform.
use vstd::prelude::*;

verus! {

/// One step of a register sequence.
#[derive(Clone, Copy, PartialEq, Eq, Structural)]
pub enum RegOp {
    /// Write a 32-bit register.
    Write { addr: usize, value: u32 },
    /// Busy-wait for this many spin-loop iterations.
    Spin { count: u32 },
    /// Read a 32-bit register and drop the value.
    Read { addr: usize },
}

} // verus!
