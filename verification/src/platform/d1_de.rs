//! The D1 display engine and LCD timing controller: pointing mixer 0's
//! first UI layer at the scanout buffer.
use vstd::prelude::*;
use crate::mmio::RegOp;

verus! {

pub const CCU_BASE: usize = 0x0200_1000;
pub const DE_BASE: usize = 0x0500_0000;
pub const TCON_LCD0: usize = 0x0546_1000;
pub const CCU_DE_BGR: usize = 0x0200_160C;
pub const CCU_TCONLCD_BGR: usize = 0x0200_164C;
/// The display clock register (the LCD timing controller shares the video PLL path).
pub const CCU_DE_CLK: usize = 0x0200_1600;
pub const CCU_TCONLCD_CLK: usize = 0x0200_1600;
/// Mixer 0, UI channel 0.
pub const UI0: usize = 0x0500_2000;
/// The scanout geometry: 1024×768, 4096-byte rows, 16 MiB into DRAM.
pub const DE_WIDTH: u32 = 1024;
pub const DE_HEIGHT: u32 = 768;
pub const DE_STRIDE: u32 = 4096;
pub const DE_FB_ADDR: u32 = 0x4100_0000;

/// The size word of the layers: (height - 1) in the high half, (width - 1) in the low.
pub open spec fn size_word(w: u32, h: u32) -> u32 {
    ((h - 1) * 65536 + (w - 1)) as u32
}

/// Ungate the engine and the timing controller, then program the mixer,
/// the blender, UI layer 0 (XRGB8888 from the scanout buffer) and the
/// timing controller's size.
pub open spec fn de_init_sequence() -> Seq<RegOp> {
    let size = size_word(DE_WIDTH, DE_HEIGHT);
    seq![
        RegOp::Write { addr: CCU_DE_BGR, value: 0x0001_0001 },
        RegOp::Write { addr: CCU_TCONLCD_BGR, value: 0x0001_0001 },
        RegOp::Read { addr: CCU_DE_CLK },
        RegOp::Read { addr: CCU_TCONLCD_CLK },
        RegOp::Write { addr: DE_BASE, value: 1 },
        RegOp::Write { addr: (DE_BASE + 0x0C) as usize, value: size },
        RegOp::Write { addr: (DE_BASE + 0x1000) as usize, value: 0x0000_0101 },
        RegOp::Write { addr: (DE_BASE + 0x1008) as usize, value: 0xFF00_0000 },
        RegOp::Write { addr: (DE_BASE + 0x1018) as usize, value: 0 },
        RegOp::Write { addr: (DE_BASE + 0x1088) as usize, value: size },
        RegOp::Write { addr: UI0, value: 0x401 },
        RegOp::Write { addr: (UI0 + 0x04) as usize, value: size },
        RegOp::Write { addr: (UI0 + 0x08) as usize, value: 0 },
        RegOp::Write { addr: (UI0 + 0x0C) as usize, value: DE_STRIDE },
        RegOp::Write { addr: (UI0 + 0x10) as usize, value: DE_FB_ADDR },
        RegOp::Write { addr: TCON_LCD0, value: 0x8000_0000 },
        RegOp::Write { addr: (TCON_LCD0 + 0x60) as usize, value: size },
    ]
}

/// The register accesses that start scanout.
pub fn init() -> (ops: Vec<RegOp>)
    ensures
        ops@ == de_init_sequence(),
{
    let h1: u32 = DE_HEIGHT - 1;
    let w1: u32 = DE_WIDTH - 1;
    let size: u32 = (h1 << 16u32) | w1;
    assert((h1 << 16u32) | w1 == 767u32 * 65536 + 1023) by (bit_vector)
        requires
            h1 == 767u32,
            w1 == 1023u32,
    ;
    let mut ops: Vec<RegOp> = Vec::new();
    ops.push(RegOp::Write { addr: CCU_DE_BGR, value: (1u32 << 16u32) | 1 });
    ops.push(RegOp::Write { addr: CCU_TCONLCD_BGR, value: (1u32 << 16u32) | 1 });
    assert((1u32 << 16u32) | 1 == 0x0001_0001u32) by (bit_vector);
    ops.push(RegOp::Read { addr: CCU_DE_CLK });
    ops.push(RegOp::Read { addr: CCU_TCONLCD_CLK });
    ops.push(RegOp::Write { addr: DE_BASE, value: 1 });
    ops.push(RegOp::Write { addr: DE_BASE + 0x0C, value: size });
    ops.push(RegOp::Write { addr: DE_BASE + 0x1000, value: 0x0000_0101 });
    ops.push(RegOp::Write { addr: DE_BASE + 0x1008, value: 0xFF00_0000 });
    ops.push(RegOp::Write { addr: DE_BASE + 0x1018, value: 0 });
    ops.push(RegOp::Write { addr: DE_BASE + 0x1088, value: size });
    ops.push(RegOp::Write { addr: UI0, value: 1 | (4u32 << 8u32) });
    assert(1 | (4u32 << 8u32) == 0x401u32) by (bit_vector);
    ops.push(RegOp::Write { addr: UI0 + 0x04, value: size });
    ops.push(RegOp::Write { addr: UI0 + 0x08, value: 0 });
    ops.push(RegOp::Write { addr: UI0 + 0x0C, value: DE_STRIDE });
    ops.push(RegOp::Write { addr: UI0 + 0x10, value: DE_FB_ADDR });
    ops.push(RegOp::Write { addr: TCON_LCD0, value: 1u32 << 31u32 });
    assert(1u32 << 31u32 == 0x8000_0000u32) by (bit_vector);
    ops.push(RegOp::Write { addr: TCON_LCD0 + 0x60, value: size });
    assert(ops@ =~= de_init_sequence());
    ops
}

/// Re-publish the scanout address after a flush.
pub fn kick() -> (op: RegOp)
    ensures
        op == (RegOp::Write { addr: (UI0 + 0x10) as usize, value: DE_FB_ADDR }),
{
    RegOp::Write { addr: UI0 + 0x10, value: DE_FB_ADDR }
}

} // verus!
