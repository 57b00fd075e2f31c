//! The QEMU `virt` machine: its memory map, and whether the host offers the
//! HDL mailbox.
use vstd::prelude::*;
use crate::platform::Platform;

verus! {

/// The `virt` machine.
pub struct Virt;

impl Platform for Virt {
    const DRAM_BASE: usize = 0x8000_0000;
    const UART_BASE: usize = 0x1000_0000;
    const TIMER_FREQ_HZ: u64 = 10_000_000;
}

pub const DRAM_BASE: usize = 0x8000_0000;
pub const KERNEL_START: usize = 0x8000_0000;
pub const DRAM_SIZE: usize = 0x2000_0000;
pub const UART_BASE: usize = 0x1000_0000;
pub const UART_STRIDE: usize = 1;
pub const PLIC_BASE: usize = 0x0C00_0000;
pub const CLINT_BASE: usize = 0x0200_0000;
pub const CLINT_MTIME: usize = 0x0200_BFF8;
pub const CLINT_MSIP_BASE: usize = 0x0200_0000;
pub const VIRTIO_BASE: usize = 0x1000_1000;
pub const VIRTIO_STRIDE: usize = 0x1000;
pub const TIMER_FREQ_HZ: u64 = 10_000_000;
pub const HAS_VIRTIO: bool = true;
/// Highest hart id (eight harts).
pub const MAX_HART_ID: usize = 7;
pub const DISPLAY_WIDTH: u32 = 1024;
pub const DISPLAY_HEIGHT: u32 = 768;
pub const FB_STRIDE: usize = 4096;
/// Offset of the doorbell page in DRAM.
pub const FB_META_OFFSET: usize = 0x00FF_F000;
/// Offset of the scanout buffer in DRAM.
pub const FB_OFFSET: usize = 0x0100_0000;
pub const FB_META_ADDR: usize = 0x80FF_F000;
pub const FB_ADDR: usize = 0x8100_0000;

/// The mailbox ABI the kernel speaks.
pub const HDL_ABI_MAJOR: u32 = 1;
/// Where the mailbox must sit.
pub const HDL_ADDR: u64 = 0x8140_0000;
/// How large it must at least be.
pub const HDL_REGION_SIZE: u64 = 0x21000;

/// The HDL mailbox node as the device tree describes it.
#[derive(Clone, Copy, PartialEq, Eq, Structural)]
pub struct HdlMailbox {
    pub base: u64,
    pub size: u64,
    pub abi_major: u32,
}

/// The host advertised the mailbox with the kernel's ABI, at the expected
/// address and at least the expected size.
pub fn hdl_host_advertised(mailbox: Option<HdlMailbox>) -> (r: bool)
    ensures
        r == (mailbox matches Some(m) && m.abi_major == HDL_ABI_MAJOR && m.base == HDL_ADDR && m.size
            >= HDL_REGION_SIZE),
{
    match mailbox {
        Some(m) => m.abi_major == HDL_ABI_MAJOR && m.base == HDL_ADDR && m.size >= HDL_REGION_SIZE,
        None => false,
    }
}

} // verus!
