//! Board support: the D1 and QEMU virt platforms and their devices.
use vstd::prelude::*;
pub mod d1_audio;
pub mod d1_touch;
pub mod d1_display;
pub mod d1_de;
pub mod virt;
pub mod d1;
pub mod d1_mmc;
pub mod d1_emac;

verus! {

/// What every machine tells the kernel: where DRAM and the console are,
/// and how fast the timer counts.
pub trait Platform {
    const DRAM_BASE: usize;
    const UART_BASE: usize;
    const TIMER_FREQ_HZ: u64;
}

} // verus!

