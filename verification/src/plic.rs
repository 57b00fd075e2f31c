//! The platform-level interrupt controller: each hart's supervisor context,
//! and the register accesses that enable, mask, claim and complete sources.
use vstd::prelude::*;
use crate::mmio::RegOp;

verus! {

/// The controller of the `virt` machine.
pub const PLIC_BASE: usize = 0x0C00_0000;
pub const VIRTIO_INPUT_IRQ: u32 = 1;
pub const D1_TOUCH_IRQ: u32 = 2;
pub const UART_IRQ: u32 = 10;

/// Hart `h` takes supervisor interrupts in context 2h + 1.
pub open spec fn spec_s_context(hart_id: int) -> int {
    hart_id * 2 + 1
}

/// The hart's registers can be addressed.
pub open spec fn hart_in_range(hart_id: usize) -> bool {
    PLIC_BASE + 0x20_0000 + 0x1000 * spec_s_context(hart_id as int) + 4 <= usize::MAX
}

pub open spec fn spec_enable_addr(hart_id: int) -> int {
    PLIC_BASE + 0x2000 + 0x80 * spec_s_context(hart_id)
}

pub open spec fn spec_claim_addr(hart_id: int) -> int {
    PLIC_BASE + 0x20_0000 + 0x1000 * spec_s_context(hart_id) + 4
}

pub fn s_context(hart_id: usize) -> (c: usize)
    requires
        hart_in_range(hart_id),
    ensures
        c == spec_s_context(hart_id as int),
{
    hart_id * 2 + 1
}

pub fn enable_addr(hart_id: usize) -> (a: usize)
    requires
        hart_in_range(hart_id),
    ensures
        a == spec_enable_addr(hart_id as int),
{
    PLIC_BASE + 0x2000 + 0x80 * s_context(hart_id)
}

/// Mask `irq` for hart 0, given its enable register's current value; other
/// harts and sources beyond 31 are left alone.
pub fn mask(hart_id: usize, irq: u32, enabled: u32) -> (op: Option<RegOp>)
    requires
        hart_in_range(hart_id),
    ensures
        hart_id != 0 || irq >= 32 ==> op is None,
        hart_id == 0 && irq < 32 ==> op == Some(
            RegOp::Write { addr: spec_enable_addr(0) as usize, value: enabled & !(1u32 << irq) },
        ),
{
    if hart_id != 0 || irq >= 32 {
        return None;
    }
    Some(RegOp::Write { addr: enable_addr(hart_id), value: enabled & !(1u32 << irq) })
}

/// Unmask `irq` for hart 0, given its enable register's current value.
pub fn unmask(hart_id: usize, irq: u32, enabled: u32) -> (op: Option<RegOp>)
    requires
        hart_in_range(hart_id),
    ensures
        hart_id != 0 || irq >= 32 ==> op is None,
        hart_id == 0 && irq < 32 ==> op == Some(
            RegOp::Write { addr: spec_enable_addr(0) as usize, value: enabled | (1u32 << irq) },
        ),
{
    if hart_id != 0 || irq >= 32 {
        return None;
    }
    Some(RegOp::Write { addr: enable_addr(hart_id), value: enabled | (1u32 << irq) })
}

/// Hart 0 sets up its sources (priority 1 for the input, touch and UART
/// interrupts, those three enabled, threshold 0); other harts take no
/// external interrupts.
pub open spec fn init_sequence(hart_id: int) -> Seq<RegOp> {
    if hart_id != 0 {
        seq![]
    } else {
        seq![
            RegOp::Write { addr: (PLIC_BASE + 4) as usize, value: 1 },
            RegOp::Write { addr: (PLIC_BASE + 8) as usize, value: 1 },
            RegOp::Write { addr: (PLIC_BASE + 40) as usize, value: 1 },
            RegOp::Write { addr: spec_enable_addr(0) as usize, value: 0x406 },
            RegOp::Write { addr: (PLIC_BASE + 0x20_0000 + 0x1000) as usize, value: 0 },
        ]
    }
}

pub fn init(hart_id: usize) -> (ops: Vec<RegOp>)
    requires
        hart_in_range(hart_id),
    ensures
        ops@ == init_sequence(hart_id as int),
{
    let mut ops: Vec<RegOp> = Vec::new();
    if hart_id != 0 {
        assert(ops@ =~= init_sequence(hart_id as int));
        return ops;
    }
    let ctx = s_context(hart_id);
    ops.push(RegOp::Write { addr: PLIC_BASE + 4 * VIRTIO_INPUT_IRQ as usize, value: 1 });
    ops.push(RegOp::Write { addr: PLIC_BASE + 4 * D1_TOUCH_IRQ as usize, value: 1 });
    ops.push(RegOp::Write { addr: PLIC_BASE + 4 * UART_IRQ as usize, value: 1 });
    let enable_mask: u32 = (1u32 << VIRTIO_INPUT_IRQ) | (1u32 << D1_TOUCH_IRQ) | (1u32 << UART_IRQ);
    assert((1u32 << 1u32) | (1u32 << 2u32) | (1u32 << 10u32) == 0x406u32) by (bit_vector);
    ops.push(RegOp::Write { addr: enable_addr(hart_id), value: enable_mask });
    ops.push(RegOp::Write { addr: PLIC_BASE + 0x20_0000 + 0x1000 * ctx, value: 0 });
    assert(ops@ =~= init_sequence(hart_id as int));
    ops
}

/// Where hart `hart_id` reads the highest-priority pending source (0: none).
pub fn claim(hart_id: usize) -> (op: RegOp)
    requires
        hart_in_range(hart_id),
    ensures
        op == (RegOp::Read { addr: spec_claim_addr(hart_id as int) as usize }),
{
    let ctx = s_context(hart_id);
    RegOp::Read { addr: PLIC_BASE + 0x20_0000 + 0x1000 * ctx + 4 }
}

/// Acknowledge `irq` for hart `hart_id`, re-enabling the source.
pub fn complete(hart_id: usize, irq: u32) -> (op: RegOp)
    requires
        hart_in_range(hart_id),
    ensures
        op == (RegOp::Write { addr: spec_claim_addr(hart_id as int) as usize, value: irq }),
{
    let ctx = s_context(hart_id);
    RegOp::Write { addr: PLIC_BASE + 0x20_0000 + 0x1000 * ctx + 4, value: irq }
}

} // verus!
