//! The Allwinner D1 (Lichee RV 86) memory map.
use vstd::prelude::*;
use crate::platform::Platform;

verus! {

/// The D1 board.
pub struct D1;

impl Platform for D1 {
    const DRAM_BASE: usize = 0x4000_0000;
    const UART_BASE: usize = 0x0250_0000;
    const TIMER_FREQ_HZ: u64 = 24_000_000;
}

pub const DRAM_BASE: usize = 0x4000_0000;
/// Where the kernel loads, above the firmware's 2 MiB.
pub const KERNEL_START: usize = 0x4020_0000;
pub const HEAP_START: usize = 0x4060_0000;
/// 56 MiB of heap.
pub const HEAP_SIZE: usize = 0x0380_0000;
/// 512 MiB of DRAM.
pub const DRAM_SIZE: usize = 0x2000_0000;
pub const CCU_BASE: usize = 0x0200_1000;
pub const CCU_UART_BGR: usize = 0x0200_190C;
pub const CCU_MMC_BGR: usize = 0x0200_184C;
pub const CCU_EMAC_BGR: usize = 0x0200_197C;
pub const GPIO_BASE: usize = 0x0200_0000;
pub const UART_BASE: usize = 0x0250_0000;
pub const UART1_BASE: usize = 0x0250_0400;
pub const UART2_BASE: usize = 0x0250_0800;
pub const MMC0_BASE: usize = 0x0402_0000;
pub const MMC1_BASE: usize = 0x0402_1000;
pub const MMC2_BASE: usize = 0x0402_2000;
pub const EMAC_BASE: usize = 0x0450_0000;
pub const EMAC_EPHY_CLK: usize = 0x0303_4030;
pub const DE_BASE: usize = 0x0500_0000;
pub const DE_MUX0: usize = 0x0510_0000;
pub const TCON_LCD0: usize = 0x0546_1000;
pub const MIPI_DSI: usize = 0x0545_0000;
pub const DPHY: usize = 0x0545_1000;
pub const USB_OTG: usize = 0x0410_0000;
pub const USB_HCI: usize = 0x0420_0000;
/// The 24 MHz oscillator.
pub const TIMER_FREQ_HZ: u64 = 24_000_000;
/// Timer ticks per 10 ms.
pub const TIMER_INTERVAL: u64 = 240_000;
pub const HAS_VIRTIO: bool = false;
pub const DISPLAY_WIDTH: usize = 1024;
pub const DISPLAY_HEIGHT: usize = 768;
/// The touch controller's I2C address.
pub const TOUCH_I2C_ADDR: u8 = 0x38;

} // verus!
