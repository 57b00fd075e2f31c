//! The guest-owned scanout buffer: pixels, the dirty rectangle the host
//! scrapes, and the doorbell that publishes each frame.
//!
//! The buffer is 1024×768 XRGB8888 with a 4096-byte stride; the model holds
//! its pixels row by row.
use vstd::prelude::*;
use crate::mmio::RegOp;
use crate::perfstat::{inc, PerfCounters, DIRTY_PIXELS, FRAMES_FLUSHED};

verus! {

pub const DISPLAY_WIDTH: u32 = 1024;
pub const DISPLAY_HEIGHT: u32 = 768;
pub const FB_STRIDE: usize = 4096;
/// Pixels per buffer row.
pub const PIXELS_PER_ROW: usize = 1024;
/// The scanout buffer, 16 MiB into DRAM.
pub const FRAMEBUFFER_ADDR: usize = 0x8100_0000;
/// The doorbell page just below it.
pub const FB_META_ADDR: usize = 0x80FF_F000;
pub const DIRTY_RECT_ADDR: usize = 0x80FF_FFE0;
pub const FRAME_VERSION_ADDR: usize = 0x80FF_FFFC;
/// "HVFB".
pub const FB_MAGIC: u32 = 0x4856_4642;
pub const FB_PROTO: u32 = 1;
/// Pixels in the buffer.
pub const FB_PIXELS: usize = 786432;

/// An opaque XRGB pixel from its components.
pub open spec fn spec_pack_pixel(r: u8, g: u8, b: u8) -> u32 {
    (r as int + g as int * 256 + b as int * 65536 + 0xFF00_0000) as u32
}

pub fn pack_pixel(r: u8, g: u8, b: u8) -> (p: u32)
    ensures
        p == spec_pack_pixel(r, g, b),
{
    let p = (r as u32) | ((g as u32) << 8u32) | ((b as u32) << 16u32) | 0xFF00_0000u32;
    assert(p == (r as u32) + (g as u32) * 256 + (b as u32) * 65536 + 0xFF00_0000u32) by (bit_vector)
        requires
            p == (r as u32) | ((g as u32) << 8u32) | ((b as u32) << 16u32) | 0xFF00_0000u32,
    ;
    p
}

/// Position of pixel (`x`, `y`) in the buffer.
pub open spec fn pix(x: int, y: int) -> int {
    y * 1024 + x
}

/// The frame bookkeeping: the dirty rectangle (`min` inclusive, `max`
/// exclusive), whether anything was drawn, the published frame version,
/// whether pixel writes are batched, and whether the display is up.
#[derive(Clone, Copy, PartialEq, Eq, Structural)]
pub struct DisplayState {
    pub min_x: u32,
    pub min_y: u32,
    pub max_x: u32,
    pub max_y: u32,
    pub frame_dirty: bool,
    pub frame_version: u32,
    pub batch: bool,
    pub available: bool,
}

/// Nothing drawn yet.
pub open spec fn clean(d: DisplayState) -> DisplayState {
    DisplayState {
        min_x: DISPLAY_WIDTH,
        min_y: DISPLAY_HEIGHT,
        max_x: 0,
        max_y: 0,
        frame_dirty: false,
        ..d
    }
}

pub open spec fn min_u32(a: u32, b: u32) -> u32 {
    if a <= b { a } else { b }
}

pub open spec fn max_u32(a: u32, b: u32) -> u32 {
    if a >= b { a } else { b }
}

/// `d` after the `w`×`h` rectangle at (`x`, `y`) was drawn: the dirty
/// rectangle grows to cover it, clipped to the screen.
pub open spec fn marked(d: DisplayState, x: u32, y: u32, w: u32, h: u32) -> DisplayState {
    DisplayState {
        min_x: min_u32(d.min_x, x),
        min_y: min_u32(d.min_y, y),
        max_x: max_u32(d.max_x, min_u32((x + w) as u32, DISPLAY_WIDTH)),
        max_y: max_u32(d.max_y, min_u32((y + h) as u32, DISPLAY_HEIGHT)),
        frame_dirty: true,
        ..d
    }
}

impl DisplayState {
    pub fn new() -> (d: Self)
        ensures
            d == clean(d),
            d.frame_version == 0,
            !d.batch,
            !d.available,
    {
        DisplayState {
            min_x: DISPLAY_WIDTH,
            min_y: DISPLAY_HEIGHT,
            max_x: 0,
            max_y: 0,
            frame_dirty: false,
            frame_version: 0,
            batch: false,
            available: false,
        }
    }
}

/// Grow the dirty rectangle over the `width`×`height` rectangle at (`x`, `y`).
pub fn mark_dirty(d: &mut DisplayState, x: u32, y: u32, width: u32, height: u32)
    requires
        x + width <= u32::MAX,
        y + height <= u32::MAX,
    ensures
        *final(d) == marked(*old(d), x, y, width, height),
{
    if x < d.min_x {
        d.min_x = x;
    }
    if y < d.min_y {
        d.min_y = y;
    }
    let ex = if x + width < DISPLAY_WIDTH { x + width } else { DISPLAY_WIDTH };
    let ey = if y + height < DISPLAY_HEIGHT { y + height } else { DISPLAY_HEIGHT };
    if ex > d.max_x {
        d.max_x = ex;
    }
    if ey > d.max_y {
        d.max_y = ey;
    }
    d.frame_dirty = true;
}

/// The whole screen is dirty.
pub fn mark_all_dirty(d: &mut DisplayState)
    ensures
        *final(d) == (DisplayState {
            min_x: 0,
            min_y: 0,
            max_x: DISPLAY_WIDTH,
            max_y: DISPLAY_HEIGHT,
            frame_dirty: true,
            ..*old(d)
        }),
{
    d.min_x = 0;
    d.min_y = 0;
    d.max_x = DISPLAY_WIDTH;
    d.max_y = DISPLAY_HEIGHT;
    d.frame_dirty = true;
}

/// Nothing is dirty.
pub fn reset_dirty(d: &mut DisplayState)
    ensures
        *final(d) == clean(*old(d)),
{
    d.min_x = DISPLAY_WIDTH;
    d.min_y = DISPLAY_HEIGHT;
    d.max_x = 0;
    d.max_y = 0;
    d.frame_dirty = false;
}

pub fn is_frame_dirty(d: &DisplayState) -> (r: bool)
    ensures
        r == d.frame_dirty,
{
    d.frame_dirty
}

pub fn get_frame_version(d: &DisplayState) -> (r: u32)
    ensures
        r == d.frame_version,
{
    d.frame_version
}

/// Pixel writes stop marking the dirty rectangle one by one.
pub fn begin_pixel_batch(d: &mut DisplayState)
    ensures
        *final(d) == (DisplayState { batch: true, ..*old(d) }),
{
    d.batch = true;
}

pub fn end_pixel_batch(d: &mut DisplayState)
    ensures
        *final(d) == (DisplayState { batch: false, ..*old(d) }),
{
    d.batch = false;
}

pub fn is_available(d: &DisplayState) -> (r: bool)
    ensures
        r == d.available,
{
    d.available
}

/// What a flush publishes: the dirty rectangle and the new frame version.
#[derive(Clone, Copy, PartialEq, Eq, Structural)]
pub struct FlushReport {
    pub min_x: u32,
    pub min_y: u32,
    pub max_x: u32,
    pub max_y: u32,
    pub version: u32,
}

/// The frame bookkeeping, counters and published report after a flush (see `flush`).
pub open spec fn flushed(d: DisplayState, perf: Seq<u64>) -> (DisplayState, Seq<u64>, Option<FlushReport>) {
    if !d.frame_dirty {
        (d, perf, None)
    } else if d.min_x >= d.max_x || d.min_y >= d.max_y {
        (clean(d), perf, None)
    } else {
        let v = d.frame_version.wrapping_add(1);
        let area = ((d.max_x - d.min_x) * (d.max_y - d.min_y)) as u64;
        let p1 = perf.update(
            FRAMES_FLUSHED as int,
            vstd::wrapping::u64_specs::wrapping_add(perf[FRAMES_FLUSHED as int], 1),
        );
        (
            clean(DisplayState { frame_version: v, ..d }),
            p1.update(
                DIRTY_PIXELS as int,
                vstd::wrapping::u64_specs::wrapping_add(p1[DIRTY_PIXELS as int], area),
            ),
            Some(FlushReport { min_x: d.min_x, min_y: d.min_y, max_x: d.max_x, max_y: d.max_y, version: v }),
        )
    }
}

/// Publish a frame. Nothing happens unless something was drawn; an empty
/// dirty rectangle is just forgotten. Otherwise the frame counters grow (by
/// one frame and the rectangle's area), the version steps (wrapping), the
/// dirty state is cleared, and the rectangle and version are returned for
/// the doorbell (`flush_writes`), after which the meta page is republished
/// and the display controller kicked.
pub fn flush(d: &mut DisplayState, perf: &mut PerfCounters) -> (r: Option<FlushReport>)
    requires
        old(perf).wf(),
    ensures
        final(perf).wf(),
        (*final(d), final(perf)@, r) == flushed(*old(d), old(perf)@),
{
    if !d.frame_dirty {
        return None;
    }
    if d.min_x >= d.max_x || d.min_y >= d.max_y {
        reset_dirty(d);
        return None;
    }
    let dx = (d.max_x - d.min_x) as u64;
    let dy = (d.max_y - d.min_y) as u64;
    assert(dx * dy <= u64::MAX) by (nonlinear_arith)
        requires
            dx <= u32::MAX,
            dy <= u32::MAX,
    ;
    inc(perf, FRAMES_FLUSHED);
    crate::perfstat::add(perf, DIRTY_PIXELS, dx * dy);
    d.frame_version = d.frame_version.wrapping_add(1);
    let rep = FlushReport {
        min_x: d.min_x,
        min_y: d.min_y,
        max_x: d.max_x,
        max_y: d.max_y,
        version: d.frame_version,
    };
    reset_dirty(d);
    Some(rep)
}

/// The doorbell writes of a flush: the dirty rectangle, then the version.
pub fn flush_writes(rep: FlushReport) -> (ops: Vec<RegOp>)
    ensures
        ops@ == seq![
            RegOp::Write { addr: DIRTY_RECT_ADDR, value: rep.min_x },
            RegOp::Write { addr: (DIRTY_RECT_ADDR + 4) as usize, value: rep.min_y },
            RegOp::Write { addr: (DIRTY_RECT_ADDR + 8) as usize, value: rep.max_x },
            RegOp::Write { addr: (DIRTY_RECT_ADDR + 12) as usize, value: rep.max_y },
            RegOp::Write { addr: FRAME_VERSION_ADDR, value: rep.version },
        ],
{
    let mut ops: Vec<RegOp> = Vec::new();
    ops.push(RegOp::Write { addr: DIRTY_RECT_ADDR, value: rep.min_x });
    ops.push(RegOp::Write { addr: DIRTY_RECT_ADDR + 4, value: rep.min_y });
    ops.push(RegOp::Write { addr: DIRTY_RECT_ADDR + 8, value: rep.max_x });
    ops.push(RegOp::Write { addr: DIRTY_RECT_ADDR + 12, value: rep.max_y });
    ops.push(RegOp::Write { addr: FRAME_VERSION_ADDR, value: rep.version });
    assert(ops@ =~= seq![
        RegOp::Write { addr: DIRTY_RECT_ADDR, value: rep.min_x },
        RegOp::Write { addr: (DIRTY_RECT_ADDR + 4) as usize, value: rep.min_y },
        RegOp::Write { addr: (DIRTY_RECT_ADDR + 8) as usize, value: rep.max_x },
        RegOp::Write { addr: (DIRTY_RECT_ADDR + 12) as usize, value: rep.max_y },
        RegOp::Write { addr: FRAME_VERSION_ADDR, value: rep.version },
    ]);
    ops
}

/// The meta page: magic, protocol, buffer address, geometry, format
/// (XRGB8888 = 0) and the heap figures, 64-bit values low word first.
pub open spec fn meta_page(used: u64, total: u64) -> Seq<RegOp> {
    seq![
        RegOp::Write { addr: FB_META_ADDR, value: FB_MAGIC },
        RegOp::Write { addr: (FB_META_ADDR + 4) as usize, value: FB_PROTO },
        RegOp::Write { addr: (FB_META_ADDR + 8) as usize, value: FRAMEBUFFER_ADDR as u32 },
        RegOp::Write { addr: (FB_META_ADDR + 12) as usize, value: 0 },
        RegOp::Write { addr: (FB_META_ADDR + 16) as usize, value: DISPLAY_WIDTH },
        RegOp::Write { addr: (FB_META_ADDR + 20) as usize, value: DISPLAY_HEIGHT },
        RegOp::Write { addr: (FB_META_ADDR + 24) as usize, value: FB_STRIDE as u32 },
        RegOp::Write { addr: (FB_META_ADDR + 28) as usize, value: 0 },
        RegOp::Write { addr: (FB_META_ADDR + 32) as usize, value: (used % 0x1_0000_0000) as u32 },
        RegOp::Write { addr: (FB_META_ADDR + 36) as usize, value: (used / 0x1_0000_0000) as u32 },
        RegOp::Write { addr: (FB_META_ADDR + 40) as usize, value: (total % 0x1_0000_0000) as u32 },
        RegOp::Write { addr: (FB_META_ADDR + 44) as usize, value: (total / 0x1_0000_0000) as u32 },
    ]
}

/// The writes that publish the buffer's identity and the heap figures.
pub fn publish_meta(used: u64, total: u64) -> (ops: Vec<RegOp>)
    ensures
        ops@ == meta_page(used, total),
{
    let mut ops: Vec<RegOp> = Vec::new();
    ops.push(RegOp::Write { addr: FB_META_ADDR, value: FB_MAGIC });
    ops.push(RegOp::Write { addr: FB_META_ADDR + 4, value: FB_PROTO });
    ops.push(RegOp::Write { addr: FB_META_ADDR + 8, value: 0x8100_0000 });
    ops.push(RegOp::Write { addr: FB_META_ADDR + 12, value: 0 });
    ops.push(RegOp::Write { addr: FB_META_ADDR + 16, value: DISPLAY_WIDTH });
    ops.push(RegOp::Write { addr: FB_META_ADDR + 20, value: DISPLAY_HEIGHT });
    ops.push(RegOp::Write { addr: FB_META_ADDR + 24, value: 4096 });
    ops.push(RegOp::Write { addr: FB_META_ADDR + 28, value: 0 });
    ops.push(RegOp::Write { addr: FB_META_ADDR + 32, value: (used % 0x1_0000_0000) as u32 });
    ops.push(RegOp::Write { addr: FB_META_ADDR + 36, value: (used / 0x1_0000_0000) as u32 });
    ops.push(RegOp::Write { addr: FB_META_ADDR + 40, value: (total % 0x1_0000_0000) as u32 });
    ops.push(RegOp::Write { addr: FB_META_ADDR + 44, value: (total / 0x1_0000_0000) as u32 });
    assert(ops@ =~= meta_page(used, total));
    ops
}

/// The pixels of `new` are those of `old` except inside the `w`×`h`
/// rectangle at (`x`, `y`), which holds `p`.
pub open spec fn painted(old: Seq<u32>, new: Seq<u32>, x: int, y: int, w: int, h: int, p: u32) -> bool {
    &&& new.len() == old.len()
    &&& forall|i: int, j: int|
        0 <= i < 1024 && 0 <= j < 768 ==> #[trigger] new[pix(i, j)] == if x <= i < x + w && y <= j < y
            + h {
            p
        } else {
            old[pix(i, j)]
        }
}

/// The columns of a span at `x` that lie on screen.
pub open spec fn clip_w(x: u32, w: u32) -> u32 {
    if x >= DISPLAY_WIDTH { 0 } else { min_u32(w, (DISPLAY_WIDTH - x) as u32) }
}

/// The rows of a block at `y` that lie on screen.
pub open spec fn clip_h(y: u32, h: u32) -> u32 {
    if y >= DISPLAY_HEIGHT { 0 } else { min_u32(h, (DISPLAY_HEIGHT - y) as u32) }
}

/// The display driver: geometry, whether it was initialized, and the
/// scanout buffer's pixels row by row.
pub struct GpuDriver {
    pub width: u32,
    pub height: u32,
    pub initialized: bool,
    pub fb: Vec<u32>,
}

impl GpuDriver {
    pub open spec fn wf(&self) -> bool {
        &&& self.width == DISPLAY_WIDTH
        &&& self.height == DISPLAY_HEIGHT
        &&& self.fb@.len() == FB_PIXELS
    }

    /// A driver for the full screen, not yet initialized; the buffer reads zero.
    pub fn new() -> (g: Self)
        ensures
            g.wf(),
            !g.initialized,
            forall|k: int| 0 <= k < FB_PIXELS ==> g.fb@[k] == 0,
    {
        GpuDriver {
            width: DISPLAY_WIDTH,
            height: DISPLAY_HEIGHT,
            initialized: false,
            fb: vec![0u32; FB_PIXELS],
        }
    }

    pub fn init(&mut self) -> (r: Result<(), &'static str>)
        ensures
            r is Ok,
            final(self).initialized,
            final(self).width == old(self).width,
            final(self).height == old(self).height,
            final(self).fb@ == old(self).fb@,
    {
        self.initialized = true;
        Ok(())
    }

    /// Every pixel opaque black.
    pub fn init_clear_buffers(&mut self)
        requires
            old(self).wf(),
        ensures
            final(self).wf(),
            final(self).initialized == old(self).initialized,
            forall|k: int| 0 <= k < FB_PIXELS ==> final(self).fb@[k] == 0xFF00_0000u32,
    {
        self.fill_all(0xFF00_0000);
    }

    fn fill_all(&mut self, p: u32)
        requires
            old(self).wf(),
        ensures
            final(self).wf(),
            final(self).initialized == old(self).initialized,
            forall|k: int| 0 <= k < FB_PIXELS ==> final(self).fb@[k] == p,
    {
        let mut k: usize = 0;
        while k < FB_PIXELS
            invariant
                self.wf(),
                self.initialized == old(self).initialized,
                k <= FB_PIXELS,
                forall|q: int| 0 <= q < k ==> self.fb@[q] == p,
            decreases FB_PIXELS - k,
        {
            self.fb.set(k, p);
            k = k + 1;
        }
    }

    pub fn width(&self) -> (r: u32)
        ensures
            r == self.width,
    {
        self.width
    }

    pub fn height(&self) -> (r: u32)
        ensures
            r == self.height,
    {
        self.height
    }

    pub fn is_initialized(&self) -> (r: bool)
        ensures
            r == self.initialized,
    {
        self.initialized
    }

    /// Draw one pixel if it is on screen; outside a batch it marks itself dirty.
    pub fn set_pixel(&mut self, d: &mut DisplayState, x: u32, y: u32, r: u8, g: u8, b: u8)
        requires
            old(self).wf(),
        ensures
            final(self).wf(),
            final(self).initialized == old(self).initialized,
            x < DISPLAY_WIDTH && y < DISPLAY_HEIGHT ==> final(self).fb@ == old(self).fb@.update(
                pix(x as int, y as int),
                spec_pack_pixel(r, g, b),
            ) && *final(d) == if old(d).batch {
                *old(d)
            } else {
                marked(*old(d), x, y, 1, 1)
            },
            !(x < DISPLAY_WIDTH && y < DISPLAY_HEIGHT) ==> final(self).fb@ == old(self).fb@ && *final(d)
                == *old(d),
    {
        if x < self.width && y < self.height {
            let p = pack_pixel(r, g, b);
            self.fb.set((y as usize) * PIXELS_PER_ROW + x as usize, p);
            if !d.batch {
                mark_dirty(d, x, y, 1, 1);
            }
        }
    }

    /// Fill the whole screen with one colour; everything is dirty.
    pub fn clear(&mut self, d: &mut DisplayState, r: u8, g: u8, b: u8)
        requires
            old(self).wf(),
        ensures
            final(self).wf(),
            final(self).initialized == old(self).initialized,
            forall|k: int| 0 <= k < FB_PIXELS ==> final(self).fb@[k] == spec_pack_pixel(r, g, b),
            *final(d) == (DisplayState {
                min_x: 0,
                min_y: 0,
                max_x: DISPLAY_WIDTH,
                max_y: DISPLAY_HEIGHT,
                frame_dirty: true,
                ..*old(d)
            }),
    {
        let p = pack_pixel(r, g, b);
        self.fill_all(p);
        mark_all_dirty(d);
    }

    /// Fill `width` pixels of row `y` from `x`, clipped to the screen, and
    /// mark them dirty; a span starting off screen or empty does nothing.
    pub fn fill_hline(&mut self, d: &mut DisplayState, x: u32, y: u32, width: u32, r: u8, g: u8, b: u8)
        requires
            old(self).wf(),
        ensures
            final(self).wf(),
            final(self).initialized == old(self).initialized,
            y >= DISPLAY_HEIGHT || x >= DISPLAY_WIDTH || width == 0 ==> final(self).fb@ == old(self).fb@
                && *final(d) == *old(d),
            !(y >= DISPLAY_HEIGHT || x >= DISPLAY_WIDTH || width == 0) ==> painted(
                old(self).fb@,
                final(self).fb@,
                x as int,
                y as int,
                clip_w(x, width) as int,
                1,
                spec_pack_pixel(r, g, b),
            ) && *final(d) == marked(*old(d), x, y, clip_w(x, width), 1),
    {
        if y >= self.height || x >= self.width || width == 0 {
            return;
        }
        let w: u32 = if width < self.width - x { width } else { self.width - x };
        let p = pack_pixel(r, g, b);
        let row: usize = (y as usize) * PIXELS_PER_ROW;
        let mut k: u32 = 0;
        while k < w
            invariant
                self.wf(),
                self.initialized == old(self).initialized,
                x < DISPLAY_WIDTH,
                y < DISPLAY_HEIGHT,
                w == clip_w(x, width),
                row == y * 1024,
                k <= w,
                painted(old(self).fb@, self.fb@, x as int, y as int, k as int, 1, p),
            decreases w - k,
        {
            let ghost before = self.fb@;
            self.fb.set(row + (x + k) as usize, p);
            proof {
                assert forall|i: int, j: int| 0 <= i < 1024 && 0 <= j < 768 implies #[trigger] self.fb@[pix(
                    i,
                    j,
                )] == if x <= i < x + k + 1 && y <= j < y + 1 {
                    p
                } else {
                    old(self).fb@[pix(i, j)]
                } by {
                    if pix(i, j) == row + x + k {
                        assert(i == x + k && j == y);
                    } else {
                        assert(before[pix(i, j)] == self.fb@[pix(i, j)]);
                    }
                }
            }
            k = k + 1;
        }
        mark_dirty(d, x, y, w, 1);
    }

    /// Fill the `width`×`height` rectangle at (`x`, `y`), clipped to the
    /// screen, marking it dirty; one starting off screen or empty does nothing.
    pub fn fill_rect(&mut self, d: &mut DisplayState, x: u32, y: u32, width: u32, height: u32, r: u8, g: u8, b: u8)
        requires
            old(self).wf(),
        ensures
            final(self).wf(),
            final(self).initialized == old(self).initialized,
            y >= DISPLAY_HEIGHT || x >= DISPLAY_WIDTH || width == 0 || height == 0 ==> final(self).fb@
                == old(self).fb@ && *final(d) == *old(d),
            !(y >= DISPLAY_HEIGHT || x >= DISPLAY_WIDTH || width == 0 || height == 0) ==> painted(
                old(self).fb@,
                final(self).fb@,
                x as int,
                y as int,
                clip_w(x, width) as int,
                clip_h(y, height) as int,
                spec_pack_pixel(r, g, b),
            ) && *final(d) == marked(*old(d), x, y, clip_w(x, width), clip_h(y, height)),
    {
        if y >= self.height || x >= self.width || width == 0 || height == 0 {
            return;
        }
        let h: u32 = if height < self.height - y { height } else { self.height - y };
        let ghost w = clip_w(x, width);
        let ghost p = spec_pack_pixel(r, g, b);
        let ghost d0 = *d;
        let mut row: u32 = 0;
        while row < h
            invariant
                self.wf(),
                self.initialized == old(self).initialized,
                x < DISPLAY_WIDTH,
                y < DISPLAY_HEIGHT,
                width > 0,
                h == clip_h(y, height),
                w == clip_w(x, width),
                p == spec_pack_pixel(r, g, b),
                row <= h,
                painted(old(self).fb@, self.fb@, x as int, y as int, w as int, row as int, p),
                row == 0 ==> *d == d0,
                row > 0 ==> *d == marked(d0, x, y, w, row),
            decreases h - row,
        {
            let ghost before = self.fb@;
            self.fill_hline(d, x, y + row, width, r, g, b);
            proof {
                assert forall|i: int, j: int| 0 <= i < 1024 && 0 <= j < 768 implies #[trigger] self.fb@[pix(
                    i,
                    j,
                )] == if x <= i < x + w && y <= j < y + row + 1 {
                    p
                } else {
                    old(self).fb@[pix(i, j)]
                } by {
                    assert(self.fb@[pix(i, j)] == if x <= i < x + w && y + row <= j < y + row + 1 {
                        p
                    } else {
                        before[pix(i, j)]
                    });
                }
            }
            row = row + 1;
        }
    }

    /// The pixel at (`x`, `y`); 0 off screen.
    pub fn get_pixel(&self, x: u32, y: u32) -> (v: u32)
        requires
            self.wf(),
        ensures
            v == if x < DISPLAY_WIDTH && y < DISPLAY_HEIGHT {
                self.fb@[pix(x as int, y as int)]
            } else {
                0
            },
    {
        if x >= self.width || y >= self.height {
            return 0;
        }
        self.fb[(y as usize) * PIXELS_PER_ROW + x as usize]
    }

    /// Store a packed pixel if it is on screen, marking it dirty.
    pub fn put_pixel(&mut self, d: &mut DisplayState, x: u32, y: u32, pixel: u32)
        requires
            old(self).wf(),
        ensures
            final(self).wf(),
            final(self).initialized == old(self).initialized,
            x < DISPLAY_WIDTH && y < DISPLAY_HEIGHT ==> final(self).fb@ == old(self).fb@.update(
                pix(x as int, y as int),
                pixel,
            ) && *final(d) == marked(*old(d), x, y, 1, 1),
            !(x < DISPLAY_WIDTH && y < DISPLAY_HEIGHT) ==> final(self).fb@ == old(self).fb@ && *final(d)
                == *old(d),
    {
        if x >= self.width || y >= self.height {
            return;
        }
        self.fb.set((y as usize) * PIXELS_PER_ROW + x as usize, pixel);
        mark_dirty(d, x, y, 1, 1);
    }

    /// Publish the frame, once the driver is initialized.
    pub fn flush(&self, d: &mut DisplayState, perf: &mut PerfCounters) -> (r: Option<FlushReport>)
        requires
            old(perf).wf(),
        ensures
            final(perf).wf(),
            !self.initialized ==> r is None && *final(d) == *old(d) && final(perf)@ == old(perf)@,
            self.initialized ==> (*final(d), final(perf)@, r) == flushed(*old(d), old(perf)@),
    {
        if !self.initialized {
            return None;
        }
        flush(d, perf)
    }

    /// Where the scanout buffer lives.
    pub fn framebuffer_ptr(&self) -> (a: usize)
        ensures
            a == FRAMEBUFFER_ADDR,
    {
        FRAMEBUFFER_ADDR
    }
}

/// Rows of a `h`-row block at `y` that lie on screen.
pub open spec fn rows_on(y: u32, h: usize) -> int {
    if y < 768 {
        if h < 768 - y { h as int } else { 768 - y }
    } else {
        0
    }
}

/// Columns of a `w`-column block at `x` that lie on screen.
pub open spec fn cols_on(x: u32, w: usize) -> int {
    if x < 1024 {
        if w < 1024 - x { w as int } else { 1024 - x }
    } else {
        0
    }
}

/// Whether buffer slot `k` of a `w`-wide block receives a pixel: its row and
/// column lie within the `rows`×`cols` part on screen.
pub open spec fn read_into(k: int, w: int, rows: int, cols: int) -> bool {
    w > 0 && k / w < rows && k % w < cols
}

/// How many slots of row `r` (of a `w`-wide block) a buffer of `len` slots holds.
pub open spec fn read_row_count(r: int, cols: int, w: int, len: int) -> int {
    if len > r * w {
        if cols < len - r * w { cols } else { len - r * w }
    } else {
        0
    }
}

/// How many pixels a block read of `rows` rows stores.
pub open spec fn read_count(rows: nat, cols: int, w: int, len: int) -> int
    decreases rows,
{
    if rows == 0 {
        0
    } else {
        read_count((rows - 1) as nat, cols, w, len) + read_row_count(rows - 1, cols, w, len)
    }
}

impl GpuDriver {
    /// Copy the on-screen part of the `w`×`h` block at (`x`, `y`) into
    /// `buf` (row by row, `w` slots per row, as far as `buf` reaches);
    /// returns how many pixels were stored.
    pub fn read_rect(&self, x: u32, y: u32, w: usize, h: usize, buf: &mut [u32]) -> (count: usize)
        requires
            self.wf(),
            x as int + w as int <= 0x1_0000_0000,
            rows_on(y, h) * w <= usize::MAX,
        ensures
            final(buf)@.len() == old(buf)@.len(),
            forall|k: int|
                0 <= k < old(buf)@.len() ==> #[trigger] final(buf)@[k] == if read_into(
                    k,
                    w as int,
                    rows_on(y, h),
                    cols_on(x, w),
                ) {
                    self.fb@[pix(x + k % (w as int), y + k / (w as int))]
                } else {
                    old(buf)@[k]
                },
            count == read_count(rows_on(y, h) as nat, cols_on(x, w), w as int, old(buf)@.len() as int),
    {
        let rows: usize = if y < 768 {
            if h < (768 - y) as usize {
                h
            } else {
                (768 - y) as usize
            }
        } else {
            0
        };
        let cols: usize = if x < 1024 {
            if w < (1024 - x) as usize {
                w
            } else {
                (1024 - x) as usize
            }
        } else {
            0
        };
        let ghost len = buf@.len() as int;
        let ghost wi = w as int;
        let mut count: usize = 0;
        let mut row: usize = 0;
        while row < rows
            invariant
                self.wf(),
                rows == rows_on(y, h),
                cols == cols_on(x, w),
                cols <= w,
                rows * w <= usize::MAX,
                rows == 0 || y + rows <= 768,
                cols == 0 || x + cols <= 1024,
                len == buf@.len(),
                len == old(buf)@.len(),
                wi == w,
                row <= rows,
                count == read_count(row as nat, cols as int, wi, len),
                count <= row * wi,
                forall|k: int|
                    0 <= k < len ==> #[trigger] buf@[k] == if read_into(k, wi, row as int, cols as int) {
                        self.fb@[pix(x + k % wi, y + k / wi)]
                    } else {
                        old(buf)@[k]
                    },
            decreases rows - row,
        {
            assert((row + 1) * wi <= rows * wi) by (nonlinear_arith)
                requires
                    row < rows,
                    wi >= 0,
            ;
            let mut col: usize = 0;
            while col < cols
                invariant
                    self.wf(),
                    rows == rows_on(y, h),
                    cols == cols_on(x, w),
                    cols <= w,
                    (row + 1) * wi <= usize::MAX,
                    y + rows <= 768,
                    cols == 0 || x + cols <= 1024,
                    len == buf@.len(),
                    len == old(buf)@.len(),
                    wi == w,
                    row < rows,
                    col <= cols,
                    count == read_count(row as nat, cols as int, wi, len) + if len > row * wi {
                        if col < len - row * wi { col as int } else { len - row * wi }
                    } else {
                        0
                    },
                    count <= row * wi + col,
                    forall|k: int|
                        0 <= k < len ==> #[trigger] buf@[k] == if wi > 0 && ((k / wi < row && k % wi < cols)
                            || (k / wi == row && k % wi < col)) {
                            self.fb@[pix(x + k % wi, y + k / wi)]
                        } else {
                            old(buf)@[k]
                        },
                decreases cols - col,
            {
                assert(row * wi + col < (row + 1) * wi) by (nonlinear_arith)
                    requires
                        col < cols,
                        cols <= wi,
                ;
                let idx: usize = row * w + col;
                if idx < buf.len() {
                    let v = self.fb[(y as usize + row) * PIXELS_PER_ROW + (x as usize + col)];
                    let ghost before = buf@;
                    buf[idx] = v;
                    proof {
                        vstd::arithmetic::div_mod::lemma_fundamental_div_mod_converse(
                            idx as int,
                            wi,
                            row as int,
                            col as int,
                        );
                        assert forall|k: int| 0 <= k < len implies #[trigger] buf@[k] == if wi > 0 && ((k
                            / wi < row && k % wi < cols) || (k / wi == row && k % wi < col + 1)) {
                            self.fb@[pix(x + k % wi, y + k / wi)]
                        } else {
                            old(buf)@[k]
                        } by {
                            if k != idx {
                                assert(buf@[k] == before[k]);
                                vstd::arithmetic::div_mod::lemma_fundamental_div_mod(k, wi);
                                if k / wi == row && k % wi == col {
                                    assert(wi * (k / wi) + k % wi == row * wi + col) by (nonlinear_arith)
                                        requires
                                            k / wi == row,
                                            k % wi == col,
                                    ;
                                }
                            }
                        }
                    }
                    count = count + 1;
                } else {
                    proof {
                        assert forall|k: int| 0 <= k < len implies #[trigger] buf@[k] == if wi > 0 && ((k
                            / wi < row && k % wi < cols) || (k / wi == row && k % wi < col + 1)) {
                            self.fb@[pix(x + k % wi, y + k / wi)]
                        } else {
                            old(buf)@[k]
                        } by {
                            vstd::arithmetic::div_mod::lemma_fundamental_div_mod(k, wi);
                            if k / wi == row && k % wi == col {
                                assert(wi * (k / wi) + k % wi == row * wi + col) by (nonlinear_arith)
                                    requires
                                        k / wi == row,
                                        k % wi == col,
                                ;
                            }
                        }
                    }
                }
                col = col + 1;
            }
            proof {
                assert(read_count((row + 1) as nat, cols as int, wi, len) == read_count(
                    row as nat,
                    cols as int,
                    wi,
                    len,
                ) + read_row_count(row as int, cols as int, wi, len));
                assert(count <= (row + 1) * wi) by (nonlinear_arith)
                    requires
                        count <= row * wi + col,
                        col == cols,
                        cols <= wi,
                ;
                assert forall|k: int| 0 <= k < len implies #[trigger] buf@[k] == if read_into(
                    k,
                    wi,
                    row + 1,
                    cols as int,
                ) {
                    self.fb@[pix(x + k % wi, y + k / wi)]
                } else {
                    old(buf)@[k]
                } by {
                    if wi > 0 {
                        vstd::arithmetic::div_mod::lemma_fundamental_div_mod(k, wi);
                        assert(k / wi >= 0) by (nonlinear_arith)
                            requires
                                k >= 0,
                                wi > 0,
                        ;
                    }
                }
            }
            row = row + 1;
        }
        count
    }
}

/// A rectangle as the drawing layer gives it: top-left corner and size.
#[derive(Clone, Copy, PartialEq, Eq, Structural)]
pub struct Rect {
    pub x: i32,
    pub y: i32,
    pub width: u32,
    pub height: u32,
}

/// The part of `a` on screen as (x, y, width, height), if any.
pub open spec fn screen_clip(a: Rect) -> Option<(u32, u32, u32, u32)> {
    let x0: int = if a.x < 0 { 0 } else { a.x as int };
    let y0: int = if a.y < 0 { 0 } else { a.y as int };
    let x1: int = if a.x + a.width < 1024 { a.x + a.width } else { 1024 };
    let y1: int = if a.y + a.height < 768 { a.y + a.height } else { 768 };
    if a.width > 0 && a.height > 0 && x0 < x1 && y0 < y1 {
        Some((x0 as u32, y0 as u32, (x1 - x0) as u32, (y1 - y0) as u32))
    } else {
        None
    }
}

/// `a` lies within the coordinate range the drawing layer handles.
pub open spec fn rect_fits(a: Rect) -> bool {
    a.x + a.width <= 0x8000_0000 && a.y + a.height <= 0x8000_0000
}

/// The part of `a` on screen (see `screen_clip`).
pub fn clip_rect(a: Rect) -> (r: Option<(u32, u32, u32, u32)>)
    requires
        rect_fits(a),
    ensures
        r == screen_clip(a),
{
    let x0: i64 = if a.x < 0 { 0 } else { a.x as i64 };
    let y0: i64 = if a.y < 0 { 0 } else { a.y as i64 };
    let ex: i64 = a.x as i64 + a.width as i64;
    let ey: i64 = a.y as i64 + a.height as i64;
    let x1: i64 = if ex < 1024 { ex } else { 1024 };
    let y1: i64 = if ey < 768 { ey } else { 768 };
    if a.width > 0 && a.height > 0 && x0 < x1 && y0 < y1 {
        Some((x0 as u32, y0 as u32, (x1 - x0) as u32, (y1 - y0) as u32))
    } else {
        None
    }
}

/// `d` after the on-screen part of `a`, if any, was marked dirty.
pub open spec fn area_marked(d: DisplayState, a: Rect) -> DisplayState {
    match screen_clip(a) {
        Some((x, y, w, h)) => marked(d, x, y, w, h),
        None => d,
    }
}

/// Mark the on-screen part of `a` dirty.
pub fn mark_area_dirty(d: &mut DisplayState, a: Rect)
    requires
        rect_fits(a),
    ensures
        *final(d) == area_marked(*old(d), a),
{
    match clip_rect(a) {
        Some((x, y, w, h)) => mark_dirty(d, x, y, w, h),
        None => {},
    }
}

/// One point of a pixel stream: position and colour.
#[derive(Clone, Copy, PartialEq, Eq, Structural)]
pub struct Pixel {
    pub x: i32,
    pub y: i32,
    pub r: u8,
    pub g: u8,
    pub b: u8,
}

/// The buffer and bookkeeping after `px` was drawn point by point: points
/// on screen are stored, and outside a batch each marks itself dirty.
pub open spec fn drawn(fb: Seq<u32>, d: DisplayState, px: Seq<Pixel>) -> (Seq<u32>, DisplayState)
    decreases px.len(),
{
    if px.len() == 0 {
        (fb, d)
    } else {
        let (f, e) = drawn(fb, d, px.drop_last());
        let q = px.last();
        if 0 <= q.x < 1024 && 0 <= q.y < 768 {
            (
                f.update(pix(q.x as int, q.y as int), spec_pack_pixel(q.r, q.g, q.b)),
                if e.batch { e } else { marked(e, q.x as u32, q.y as u32, 1, 1) },
            )
        } else {
            (f, e)
        }
    }
}

/// Pixel (`i`, `j`) of a contiguous fill of `a` from `n` colours (row by
/// row): it lies in `a` and its whole row of colours is there.
pub open spec fn contig_covers(a: Rect, n: int, i: int, j: int) -> bool {
    &&& a.x <= i < a.x + a.width
    &&& a.y <= j < a.y + a.height
    &&& (j - a.y + 1) * a.width <= n
}

impl GpuDriver {
    /// Copy a row of packed pixels to (`x`, `y`), clipped at the right edge,
    /// and mark it dirty; a row starting off screen or empty does nothing.
    pub fn blit_row(&mut self, d: &mut DisplayState, x: u32, y: u32, pixels: &[u32])
        requires
            old(self).wf(),
        ensures
            final(self).wf(),
            final(self).initialized == old(self).initialized,
            y >= DISPLAY_HEIGHT || x >= DISPLAY_WIDTH || pixels@.len() == 0 ==> final(self).fb@ == old(
                self,
            ).fb@ && *final(d) == *old(d),
            !(y >= DISPLAY_HEIGHT || x >= DISPLAY_WIDTH || pixels@.len() == 0) ==> {
                let w = if pixels@.len() < 1024 - x { pixels@.len() as int } else { 1024 - x };
                &&& final(self).fb@.len() == old(self).fb@.len()
                &&& forall|i: int, j: int|
                    0 <= i < 1024 && 0 <= j < 768 ==> #[trigger] final(self).fb@[pix(i, j)] == if j == y
                        && x <= i < x + w {
                        pixels@[i - x]
                    } else {
                        old(self).fb@[pix(i, j)]
                    }
                &&& *final(d) == marked(*old(d), x, y, w as u32, 1)
            },
    {
        if y >= self.height || x >= self.width || pixels.len() == 0 {
            return;
        }
        let w: usize = if pixels.len() < (1024 - x) as usize {
            pixels.len()
        } else {
            (1024 - x) as usize
        };
        let row: usize = (y as usize) * PIXELS_PER_ROW;
        let mut k: usize = 0;
        while k < w
            invariant
                self.wf(),
                self.initialized == old(self).initialized,
                x < 1024,
                y < 768,
                w <= pixels@.len(),
                w <= 1024 - x,
                row == y * 1024,
                k <= w,
                forall|i: int, j: int|
                    0 <= i < 1024 && 0 <= j < 768 ==> #[trigger] self.fb@[pix(i, j)] == if j == y && x <= i
                        < x + k {
                        pixels@[i - x]
                    } else {
                        old(self).fb@[pix(i, j)]
                    },
            decreases w - k,
        {
            let ghost before = self.fb@;
            self.fb.set(row + x as usize + k, pixels[k]);
            proof {
                assert forall|i: int, j: int| 0 <= i < 1024 && 0 <= j < 768 implies #[trigger] self.fb@[pix(
                    i,
                    j,
                )] == if j == y && x <= i < x + k + 1 {
                    pixels@[i - x]
                } else {
                    old(self).fb@[pix(i, j)]
                } by {
                    if pix(i, j) == row + x + k {
                        assert(i == x + k && j == y);
                    } else {
                        assert(before[pix(i, j)] == self.fb@[pix(i, j)]);
                    }
                }
            }
            k = k + 1;
        }
        mark_dirty(d, x, y, w as u32, 1);
    }

    /// Fill the on-screen part of `area` with one colour, as one batch
    /// marked dirty at the end.
    pub fn fill_solid(&mut self, d: &mut DisplayState, area: Rect, r: u8, g: u8, b: u8)
        requires
            old(self).wf(),
            rect_fits(area),
        ensures
            final(self).wf(),
            final(self).initialized == old(self).initialized,
            match screen_clip(area) {
                Some((x, y, w, h)) => painted(
                    old(self).fb@,
                    final(self).fb@,
                    x as int,
                    y as int,
                    w as int,
                    h as int,
                    spec_pack_pixel(r, g, b),
                ) && *final(d) == (DisplayState { batch: false, ..marked(*old(d), x, y, w, h) }),
                None => final(self).fb@ == old(self).fb@ && *final(d) == *old(d),
            },
    {
        match clip_rect(area) {
            Some((x, y, w, h)) => {
                begin_pixel_batch(d);
                self.fill_rect(d, x, y, w, h, r, g, b);
                end_pixel_batch(d);
                mark_dirty(d, x, y, w, h);
            },
            None => {},
        }
    }

    /// Draw a stream of points (see `drawn`).
    pub fn draw_iter(&mut self, d: &mut DisplayState, pixels: &[Pixel])
        requires
            old(self).wf(),
        ensures
            final(self).wf(),
            final(self).initialized == old(self).initialized,
            (final(self).fb@, *final(d)) == drawn(old(self).fb@, *old(d), pixels@),
    {
        let mut i: usize = 0;
        while i < pixels.len()
            invariant
                self.wf(),
                self.initialized == old(self).initialized,
                i <= pixels@.len(),
                (self.fb@, *d) == drawn(old(self).fb@, *old(d), pixels@.take(i as int)),
            decreases pixels@.len() - i,
        {
            let q = pixels[i];
            assert(pixels@.take(i + 1).drop_last() =~= pixels@.take(i as int));
            if q.x >= 0 && q.y >= 0 {
                self.set_pixel(d, q.x as u32, q.y as u32, q.r, q.g, q.b);
            }
            i = i + 1;
        }
        assert(pixels@.take(i as int) =~= pixels@);
    }

    /// Fill `area` from a row-major stream of colours: each row whose colours
    /// are all there is stored (on screen), a row short of colours ends the
    /// fill, and the on-screen part of `area` is marked dirty at the end.
    pub fn fill_contiguous(&mut self, d: &mut DisplayState, area: Rect, colors: &[(u8, u8, u8)])
        requires
            old(self).wf(),
            rect_fits(area),
            area.width as int * area.height as int <= usize::MAX,
        ensures
            final(self).wf(),
            final(self).initialized == old(self).initialized,
            final(self).fb@.len() == old(self).fb@.len(),
            forall|i: int, j: int|
                0 <= i < 1024 && 0 <= j < 768 ==> #[trigger] final(self).fb@[pix(i, j)] == if contig_covers(
                    area,
                    colors@.len() as int,
                    i,
                    j,
                ) {
                    spec_pack_pixel(
                        colors@[(j - area.y) * area.width + (i - area.x)].0,
                        colors@[(j - area.y) * area.width + (i - area.x)].1,
                        colors@[(j - area.y) * area.width + (i - area.x)].2,
                    )
                } else {
                    old(self).fb@[pix(i, j)]
                },
            area.width == 0 || area.height == 0 ==> *final(d) == *old(d),
            area.width > 0 && area.height > 0 ==> *final(d) == (DisplayState {
                batch: false,
                ..area_marked(*old(d), area)
            }),
    {
        let aw: usize = area.width as usize;
        let ah: usize = area.height as usize;
        if aw == 0 || ah == 0 {
            return;
        }
        let total: usize = colors.len();
        let ghost n = total as int;
        begin_pixel_batch(d);
        let mut row: usize = 0;
        while row < ah
            invariant_except_break
                self.wf(),
                self.initialized == old(self).initialized,
                aw == area.width,
                ah == area.height,
                aw * ah <= usize::MAX,
                row <= ah,
                n == colors@.len(),
                n == total,
                row * aw <= n,
                forall|i: int, j: int|
                    0 <= i < 1024 && 0 <= j < 768 ==> #[trigger] self.fb@[pix(i, j)] == if area.x <= i
                        < area.x + aw && area.y <= j < area.y + row {
                        spec_pack_pixel(
                            colors@[(j - area.y) * aw + (i - area.x)].0,
                            colors@[(j - area.y) * aw + (i - area.x)].1,
                            colors@[(j - area.y) * aw + (i - area.x)].2,
                        )
                    } else {
                        old(self).fb@[pix(i, j)]
                    },
            ensures
                self.wf(),
                self.initialized == old(self).initialized,
                row <= ah,
                row * aw <= n,
                row == ah || (row + 1) * aw > n,
                forall|i: int, j: int|
                    0 <= i < 1024 && 0 <= j < 768 ==> #[trigger] self.fb@[pix(i, j)] == if area.x <= i
                        < area.x + aw && area.y <= j < area.y + row {
                        spec_pack_pixel(
                            colors@[(j - area.y) * aw + (i - area.x)].0,
                            colors@[(j - area.y) * aw + (i - area.x)].1,
                            colors@[(j - area.y) * aw + (i - area.x)].2,
                        )
                    } else {
                        old(self).fb@[pix(i, j)]
                    },
            decreases ah - row,
        {
            assert((row + 1) * aw <= aw * ah) by (nonlinear_arith)
                requires
                    row < ah,
            ;
            if (row + 1) * aw > colors.len() {
                break;
            }
            let py: i64 = area.y as i64 + row as i64;
            if py >= 0 && py < 768 {
                let mut col: usize = 0;
                while col < aw
                    invariant
                        self.wf(),
                        self.initialized == old(self).initialized,
                        aw == area.width,
                        ah == area.height,
                        row < ah,
                        (row + 1) * aw <= n,
                        n == colors@.len(),
                        n == total,
                        py == area.y + row,
                        0 <= py < 768,
                        col <= aw,
                        forall|i: int, j: int|
                            0 <= i < 1024 && 0 <= j < 768 ==> #[trigger] self.fb@[pix(i, j)] == if (area.x
                                <= i < area.x + aw && area.y <= j < area.y + row) || (j == py && area.x <= i
                                < area.x + col) {
                                spec_pack_pixel(
                                    colors@[(j - area.y) * aw + (i - area.x)].0,
                                    colors@[(j - area.y) * aw + (i - area.x)].1,
                                    colors@[(j - area.y) * aw + (i - area.x)].2,
                                )
                            } else {
                                old(self).fb@[pix(i, j)]
                            },
                    decreases aw - col,
                {
                    let px: i64 = area.x as i64 + col as i64;
                    let ghost before = self.fb@;
                    if px >= 0 && px < 1024 {
                        assert(row * aw + col < (row + 1) * aw) by (nonlinear_arith)
                            requires
                                col < aw,
                        ;
                        let c = colors[row * aw + col];
                        let p = pack_pixel(c.0, c.1, c.2);
                        self.fb.set((py as usize) * PIXELS_PER_ROW + px as usize, p);
                        proof {
                            assert forall|i: int, j: int|
                                0 <= i < 1024 && 0 <= j < 768 implies #[trigger] self.fb@[pix(i, j)] == if (
                            area.x <= i < area.x + aw && area.y <= j < area.y + row) || (j == py && area.x <= i
                                < area.x + col + 1) {
                                spec_pack_pixel(
                                    colors@[(j - area.y) * aw + (i - area.x)].0,
                                    colors@[(j - area.y) * aw + (i - area.x)].1,
                                    colors@[(j - area.y) * aw + (i - area.x)].2,
                                )
                            } else {
                                old(self).fb@[pix(i, j)]
                            } by {
                                if pix(i, j) == py * 1024 + px {
                                    assert(i == px && j == py);
                                } else {
                                    assert(before[pix(i, j)] == self.fb@[pix(i, j)]);
                                }
                            }
                        }
                    }
                    col = col + 1;
                }
            }
            proof {
                assert((row + 1) * aw <= n);
            }
            row = row + 1;
        }
        proof {
            assert forall|i: int, j: int| 0 <= i < 1024 && 0 <= j < 768 implies #[trigger] self.fb@[pix(
                i,
                j,
            )] == if contig_covers(area, n, i, j) {
                spec_pack_pixel(
                    colors@[(j - area.y) * area.width + (i - area.x)].0,
                    colors@[(j - area.y) * area.width + (i - area.x)].1,
                    colors@[(j - area.y) * area.width + (i - area.x)].2,
                )
            } else {
                old(self).fb@[pix(i, j)]
            } by {
                let rr = j - area.y;
                if area.y <= j && rr < row {
                    assert((rr + 1) * aw <= row * aw) by (nonlinear_arith)
                        requires
                            rr < row,
                    ;
                }
                if area.y <= j && rr >= row && row < ah {
                    assert((rr + 1) * aw >= (row + 1) * aw) by (nonlinear_arith)
                        requires
                            rr >= row,
                    ;
                }
            }
        }
        end_pixel_batch(d);
        mark_area_dirty(d, area);
    }
}

/// Bring the display up: an initialized driver, the display marked
/// available, and the meta page writes to publish (with these heap figures).
pub fn init(d: &mut DisplayState, heap_used: u64, heap_total: u64) -> (r: Result<(GpuDriver, Vec<RegOp>), &'static str>)
    ensures
        r matches Ok((g, ops)) && g.wf() && g.initialized && ops@ == meta_page(heap_used, heap_total),
        *final(d) == (DisplayState { available: true, ..*old(d) }),
{
    let mut gpu = GpuDriver::new();
    let _ = gpu.init();
    d.available = true;
    let ops = publish_meta(heap_used, heap_total);
    Ok((gpu, ops))
}

/// Clear the buffer to opaque black (when there is a driver), mark the
/// whole screen dirty and flush.
pub fn init_clear_buffers(gpu: &mut Option<GpuDriver>, d: &mut DisplayState, perf: &mut PerfCounters) -> (r: Option<FlushReport>)
    requires
        old(perf).wf(),
        old(gpu).is_some() ==> old(gpu).unwrap().wf(),
    ensures
        final(perf).wf(),
        old(gpu).is_none() ==> final(gpu).is_none(),
        old(gpu).is_some() ==> final(gpu).is_some() && final(gpu).unwrap().wf() && final(gpu).unwrap().initialized
            == old(gpu).unwrap().initialized && forall|k: int| 0 <= k < FB_PIXELS ==> final(gpu).unwrap().fb@[k] == 0xFF00_0000u32,
        (*final(d), final(perf)@, r) == flushed(
            DisplayState {
                min_x: 0,
                min_y: 0,
                max_x: DISPLAY_WIDTH,
                max_y: DISPLAY_HEIGHT,
                frame_dirty: true,
                ..*old(d)
            },
            old(perf)@,
        ),
{
    match gpu {
        Some(g) => g.init_clear_buffers(),
        None => {},
    }
    mark_all_dirty(d);
    flush(d, perf)
}

/// Blank the buffer (its first pixel opaque black, so that the next version
/// shows) and mark the whole screen dirty.
pub fn clear_display(gpu: &mut GpuDriver, d: &mut DisplayState)
    requires
        old(gpu).wf(),
    ensures
        final(gpu).wf(),
        final(gpu).initialized == old(gpu).initialized,
        final(gpu).fb@[0] == 0xFF00_0000u32,
        forall|k: int| 1 <= k < FB_PIXELS ==> final(gpu).fb@[k] == 0,
        *final(d) == (DisplayState {
            min_x: 0,
            min_y: 0,
            max_x: DISPLAY_WIDTH,
            max_y: DISPLAY_HEIGHT,
            frame_dirty: true,
            ..*old(d)
        }),
{
    gpu.fill_all(0);
    gpu.fb.set(0, 0xFF00_0000);
    mark_all_dirty(d);
}

/// Pixel (`i`, `j`) lies in the on-screen part of the `w`×`h` block at (`x`, `y`).
pub open spec fn in_block(i: int, j: int, x: u32, y: u32, w: usize, h: usize) -> bool {
    x <= i < x + cols_on(x, w) && y <= j < y + rows_on(y, h)
}

/// The slot of pixel (`i`, `j`) in a `w`-wide buffer laid over the block at (`x`, `y`).
pub open spec fn slot(i: int, j: int, x: int, y: int, w: int) -> int {
    (j - y) * w + (i - x)
}

/// A whole-block copy goes ahead: the block is not empty and the buffer holds all of it.
pub open spec fn block_guard(w: usize, h: usize, len: int) -> bool {
    w > 0 && h > 0 && len >= w * h
}

/// Where a whole-block copy would reach for a clip width below zero.
pub open spec fn block_clip_underflows(x: u32, y: u32, w: usize, h: usize, len: int) -> bool {
    block_guard(w, h, len) && y < DISPLAY_HEIGHT && x > DISPLAY_WIDTH
}

/// The colour a cursor bitmap cell paints over `old`: 1 black, 2 white, else nothing.
pub open spec fn cursor_px(old: u32, t: u8) -> u32 {
    if t == 1 {
        0xFF00_0000u32
    } else if t == 2 {
        0xFFFF_FFFFu32
    } else {
        old
    }
}

/// Pixel (`i`, `j`) lies under the `w`×`h` cursor bitmap at (`x`, `y`).
pub open spec fn under_cursor(i: int, j: int, x: i32, y: i32, w: usize, h: usize) -> bool {
    x <= i < x + w && y <= j < y + h
}

/// The four little-endian bytes of a pixel.
pub open spec fn le_bytes(p: u32) -> Seq<u8> {
    seq![(p % 256) as u8, ((p / 256) % 256) as u8, ((p / 65536) % 256) as u8, (p / 16777216) as u8]
}

impl GpuDriver {
    /// Copy `n` pixels of `src` from `off` to row `j` at column `x`.
    fn copy_to_row(&mut self, j: u32, x: u32, n: usize, src: &[u32], off: usize)
        requires
            old(self).wf(),
            j < 768,
            x + n <= 1024,
            off + n <= src.len(),
        ensures
            final(self).wf(),
            final(self).initialized == old(self).initialized,
            forall|i: int, jj: int|
                0 <= i < 1024 && 0 <= jj < 768 ==> #[trigger] final(self).fb@[pix(i, jj)] == if jj == j && x <= i < x + n {
                    src@[off + i - x]
                } else {
                    old(self).fb@[pix(i, jj)]
                },
    {
        let row: usize = (j as usize) * PIXELS_PER_ROW;
        let mut k: usize = 0;
        while k < n
            invariant
                self.wf(),
                self.initialized == old(self).initialized,
                j < 768,
                x + n <= 1024,
                off + n <= src.len(),
                row == j * 1024,
                k <= n,
                forall|i: int, jj: int|
                    0 <= i < 1024 && 0 <= jj < 768 ==> #[trigger] self.fb@[pix(i, jj)] == if jj == j && x <= i < x + k {
                        src@[off + i - x]
                    } else {
                        old(self).fb@[pix(i, jj)]
                    },
            decreases n - k,
        {
            let ghost before = self.fb@;
            self.fb.set(row + x as usize + k, src[off + k]);
            proof {
                assert forall|i: int, jj: int| 0 <= i < 1024 && 0 <= jj < 768 implies #[trigger] self.fb@[pix(i, jj)] == if jj == j
                    && x <= i < x + k + 1 {
                    src@[off + i - x]
                } else {
                    old(self).fb@[pix(i, jj)]
                } by {
                    if pix(i, jj) == row + x + k {
                        assert(i == x + k && jj == j);
                    } else {
                        assert(before[pix(i, jj)] == self.fb@[pix(i, jj)]);
                    }
                }
            }
            k = k + 1;
        }
    }

    /// Copy the on-screen part of the `w`×`h` block `buf` (row by row, `w`
    /// per row) to (`x`, `y`) and mark the block dirty. An empty block, or a
    /// buffer too short for the whole block, does nothing.
    pub fn blit_rect(&mut self, d: &mut DisplayState, x: u32, y: u32, w: usize, h: usize, buf: &[u32])
        requires
            old(self).wf(),
            x + w <= u32::MAX,
            y + (h as u32) <= u32::MAX,
            w * h <= usize::MAX,
            !block_clip_underflows(x, y, w, h, buf@.len() as int),
        ensures
            final(self).wf(),
            final(self).initialized == old(self).initialized,
            !block_guard(w, h, buf@.len() as int) ==> final(self).fb@ == old(self).fb@ && *final(d) == *old(d),
            block_guard(w, h, buf@.len() as int) ==> {
                &&& forall|i: int, j: int|
                    0 <= i < 1024 && 0 <= j < 768 ==> #[trigger] final(self).fb@[pix(i, j)] == if in_block(i, j, x, y, w, h) {
                        buf@[slot(i, j, x as int, y as int, w as int)]
                    } else {
                        old(self).fb@[pix(i, j)]
                    }
                &&& *final(d) == marked(*old(d), x, y, w as u32, h as u32)
            },
    {
        if w == 0 || h == 0 || buf.len() < w * h {
            return;
        }
        let rows: usize = if y < 768 {
            if h < (768 - y) as usize {
                h
            } else {
                (768 - y) as usize
            }
        } else {
            0
        };
        let cols: usize = if x < 1024 {
            if w < (1024 - x) as usize {
                w
            } else {
                (1024 - x) as usize
            }
        } else {
            0
        };
        let ghost wi = w as int;
        let mut row: usize = 0;
        while row < rows
            invariant
                self.wf(),
                self.initialized == old(self).initialized,
                rows == rows_on(y, h),
                cols == cols_on(x, w),
                rows <= h,
                cols <= w,
                w * h <= buf.len(),
                wi == w,
                rows == 0 || y + rows <= 768,
                cols == 0 || x + cols <= 1024,
                row <= rows,
                forall|i: int, j: int|
                    0 <= i < 1024 && 0 <= j < 768 ==> #[trigger] self.fb@[pix(i, j)] == if x <= i < x + cols && y <= j < y + row {
                        buf@[slot(i, j, x as int, y as int, wi)]
                    } else {
                        old(self).fb@[pix(i, j)]
                    },
            decreases rows - row,
        {
            assert(row * wi + wi <= h * wi) by (nonlinear_arith)
                requires
                    row < rows,
                    rows <= h,
                    wi >= 0,
            ;
            assert(h * wi == w * h) by (nonlinear_arith)
                requires
                    wi == w,
            ;
            let ghost before = self.fb@;
            if cols > 0 {
                self.copy_to_row(y + row as u32, x, cols, buf, row * w);
            }
            proof {
                assert forall|i: int, j: int| 0 <= i < 1024 && 0 <= j < 768 implies #[trigger] self.fb@[pix(i, j)] == if x <= i < x + cols
                    && y <= j < y + row + 1 {
                    buf@[slot(i, j, x as int, y as int, wi)]
                } else {
                    old(self).fb@[pix(i, j)]
                } by {
                    if j == y + row && x <= i < x + cols {
                        assert(slot(i, j, x as int, y as int, wi) == row * wi + i - x) by (nonlinear_arith)
                            requires
                                j == y + row,
                        ;
                    } else {
                        assert(self.fb@[pix(i, j)] == before[pix(i, j)]);
                    }
                }
            }
            row = row + 1;
        }
        mark_dirty(d, x, y, w as u32, h as u32);
    }
}

impl GpuDriver {
    /// Copy `n` pixels of row `j` from column `x` into `buf` at `off`.
    fn copy_from_row(&self, j: u32, x: u32, n: usize, buf: &mut [u32], off: usize)
        requires
            self.wf(),
            j < 768,
            x + n <= 1024,
            off + n <= old(buf).len(),
        ensures
            final(buf)@.len() == old(buf)@.len(),
            forall|k: int|
                0 <= k < old(buf)@.len() ==> #[trigger] final(buf)@[k] == if off <= k < off + n {
                    self.fb@[pix(x + k - off, j as int)]
                } else {
                    old(buf)@[k]
                },
    {
        let row: usize = (j as usize) * PIXELS_PER_ROW;
        let mut c: usize = 0;
        while c < n
            invariant
                self.wf(),
                j < 768,
                x + n <= 1024,
                off + n <= buf.len(),
                buf@.len() == old(buf)@.len(),
                row == j * 1024,
                c <= n,
                forall|k: int|
                    0 <= k < old(buf)@.len() ==> #[trigger] buf@[k] == if off <= k < off + c {
                        self.fb@[pix(x + k - off, j as int)]
                    } else {
                        old(buf)@[k]
                    },
            decreases n - c,
        {
            buf[off + c] = self.fb[row + x as usize + c];
            c = c + 1;
        }
    }

    /// Copy the on-screen part of the `w`×`h` block at (`x`, `y`) into `buf`
    /// row by row (`w` slots per row); returns how many pixels were copied.
    /// An empty block, or a buffer too short for the whole block, copies
    /// nothing.
    pub fn read_rect_fast(&self, x: u32, y: u32, w: usize, h: usize, buf: &mut [u32]) -> (count: usize)
        requires
            self.wf(),
            x + w <= u32::MAX,
            w * h <= usize::MAX,
            !block_clip_underflows(x, y, w, h, old(buf)@.len() as int),
        ensures
            final(buf)@.len() == old(buf)@.len(),
            !block_guard(w, h, old(buf)@.len() as int) ==> count == 0 && final(buf)@ == old(buf)@,
            block_guard(w, h, old(buf)@.len() as int) ==> {
                &&& count == rows_on(y, h) * cols_on(x, w)
                &&& forall|k: int|
                    0 <= k < old(buf)@.len() ==> #[trigger] final(buf)@[k] == if read_into(
                        k,
                        w as int,
                        rows_on(y, h),
                        cols_on(x, w),
                    ) {
                        self.fb@[pix(x + k % (w as int), y + k / (w as int))]
                    } else {
                        old(buf)@[k]
                    }
            },
    {
        if w == 0 || h == 0 || buf.len() < w * h {
            return 0;
        }
        let rows: usize = if y < 768 {
            if h < (768 - y) as usize {
                h
            } else {
                (768 - y) as usize
            }
        } else {
            0
        };
        let cols: usize = if x < 1024 {
            if w < (1024 - x) as usize {
                w
            } else {
                (1024 - x) as usize
            }
        } else {
            0
        };
        let ghost wi = w as int;
        let ghost len = buf@.len();
        let mut count: usize = 0;
        let mut row: usize = 0;
        while row < rows
            invariant
                self.wf(),
                rows == rows_on(y, h),
                cols == cols_on(x, w),
                rows <= h,
                cols <= w,
                w > 0,
                w * h <= buf.len(),
                wi == w,
                len == buf@.len(),
                len == old(buf)@.len(),
                rows == 0 || y + rows <= 768,
                cols == 0 || x + cols <= 1024,
                row <= rows,
                count == row * cols,
                forall|k: int|
                    0 <= k < len ==> #[trigger] buf@[k] == if k / wi < row && k % wi < cols {
                        self.fb@[pix(x + k % wi, y + k / wi)]
                    } else {
                        old(buf)@[k]
                    },
            decreases rows - row,
        {
            assert(row * wi + wi <= h * wi) by (nonlinear_arith)
                requires
                    row < rows,
                    rows <= h,
                    wi >= 0,
            ;
            assert(h * wi == w * h) by (nonlinear_arith)
                requires
                    wi == w,
            ;
            assert(row * cols + cols <= rows * wi) by (nonlinear_arith)
                requires
                    row < rows,
                    cols <= wi,
                    wi >= 0,
            ;
            assert(rows * wi <= h * wi) by (nonlinear_arith)
                requires
                    rows <= h,
                    wi >= 0,
            ;
            let ghost before = buf@;
            let off = row * w;
            if cols > 0 {
                self.copy_from_row(y + row as u32, x, cols, buf, off);
            }
            proof {
                assert forall|k: int| 0 <= k < len implies #[trigger] buf@[k] == if k / wi < row + 1 && k % wi < cols {
                    self.fb@[pix(x + k % wi, y + k / wi)]
                } else {
                    old(buf)@[k]
                } by {
                    vstd::arithmetic::div_mod::lemma_fundamental_div_mod(k, wi);
                    if off <= k < off + cols {
                        vstd::arithmetic::div_mod::lemma_fundamental_div_mod_converse(k, wi, row as int, k - off);
                    } else {
                        assert(buf@[k] == before[k]);
                        if k / wi == row && k % wi < cols {
                            assert(k == wi * row + k % wi);
                            assert(off == row * wi);
                            assert(false) by (nonlinear_arith)
                                requires
                                    k == wi * row + k % wi,
                                    off == row * wi,
                                    !(off <= k < off + cols),
                                    0 <= k % wi < cols,
                            ;
                        }
                    }
                }
            }
            assert((row + 1) * cols == row * cols + cols) by (nonlinear_arith);
            count = count + cols;
            row = row + 1;
        }
        assert(count == rows_on(y, h) * cols_on(x, w));
        assert forall|k: int| 0 <= k < len implies #[trigger] buf@[k] == if read_into(k, wi, rows_on(y, h), cols_on(x, w)) {
            self.fb@[pix(x + k % wi, y + k / wi)]
        } else {
            old(buf)@[k]
        } by {
        }
        count
    }
}

/// Slot `idx` of a masked block write is drawn: it is in both buffers and
/// its mask byte is set.
pub open spec fn mask_hit(buf: Seq<u32>, mask: Seq<u8>, idx: int) -> bool {
    0 <= idx < buf.len() && idx < mask.len() && mask[idx] != 0
}

impl GpuDriver {
    /// Row `j` from column `x`, `n` pixels: each whose slot (`off` onwards)
    /// is set in `mask` takes its value from `buf`.
    fn write_row_masked(&mut self, j: u32, x: u32, n: usize, buf: &[u32], mask: &[u8], off: usize)
        requires
            old(self).wf(),
            j < 768,
            x + n <= 1024,
            off + n <= usize::MAX,
        ensures
            final(self).wf(),
            final(self).initialized == old(self).initialized,
            forall|i: int, jj: int|
                0 <= i < 1024 && 0 <= jj < 768 ==> #[trigger] final(self).fb@[pix(i, jj)] == if jj == j && x <= i < x + n
                    && mask_hit(buf@, mask@, off + i - x) {
                    buf@[off + i - x]
                } else {
                    old(self).fb@[pix(i, jj)]
                },
    {
        let row: usize = (j as usize) * PIXELS_PER_ROW;
        let mut c: usize = 0;
        while c < n
            invariant
                self.wf(),
                self.initialized == old(self).initialized,
                j < 768,
                x + n <= 1024,
                off + n <= usize::MAX,
                row == j * 1024,
                c <= n,
                forall|i: int, jj: int|
                    0 <= i < 1024 && 0 <= jj < 768 ==> #[trigger] self.fb@[pix(i, jj)] == if jj == j && x <= i < x + c
                        && mask_hit(buf@, mask@, off + i - x) {
                        buf@[off + i - x]
                    } else {
                        old(self).fb@[pix(i, jj)]
                    },
            decreases n - c,
        {
            let idx = off + c;
            if idx < buf.len() && idx < mask.len() && mask[idx] != 0 {
                let ghost before = self.fb@;
                self.fb.set(row + x as usize + c, buf[idx]);
                proof {
                    assert forall|i: int, jj: int| 0 <= i < 1024 && 0 <= jj < 768 implies #[trigger] self.fb@[pix(i, jj)] == if jj
                        == j && x <= i < x + c + 1 && mask_hit(buf@, mask@, off + i - x) {
                        buf@[off + i - x]
                    } else {
                        old(self).fb@[pix(i, jj)]
                    } by {
                        if pix(i, jj) == row + x + c {
                            assert(i == x + c && jj == j);
                        } else {
                            assert(before[pix(i, jj)] == self.fb@[pix(i, jj)]);
                        }
                    }
                }
            } else {
                proof {
                    assert forall|i: int, jj: int| 0 <= i < 1024 && 0 <= jj < 768 implies #[trigger] self.fb@[pix(i, jj)] == if jj
                        == j && x <= i < x + c + 1 && mask_hit(buf@, mask@, off + i - x) {
                        buf@[off + i - x]
                    } else {
                        old(self).fb@[pix(i, jj)]
                    } by {
                        if jj == j && i == x + c {
                            assert(!mask_hit(buf@, mask@, off + i - x));
                        }
                    }
                }
            }
            c = c + 1;
        }
    }

    /// Draw the on-screen pixels of the `w`×`h` block at (`x`, `y`) whose
    /// slot is set in `mask`, taking them from `buf` (both `w` per row), and
    /// mark the block dirty.
    pub fn write_rect(&mut self, d: &mut DisplayState, x: u32, y: u32, w: usize, h: usize, buf: &[u32], mask: &[u8])
        requires
            old(self).wf(),
            x as int + w as int <= 0x1_0000_0000,
            rows_on(y, h) * w <= usize::MAX,
            x + (w as u32) <= u32::MAX,
            y + (h as u32) <= u32::MAX,
        ensures
            final(self).wf(),
            final(self).initialized == old(self).initialized,
            forall|i: int, j: int|
                0 <= i < 1024 && 0 <= j < 768 ==> #[trigger] final(self).fb@[pix(i, j)] == if in_block(i, j, x, y, w, h)
                    && mask_hit(buf@, mask@, slot(i, j, x as int, y as int, w as int)) {
                    buf@[slot(i, j, x as int, y as int, w as int)]
                } else {
                    old(self).fb@[pix(i, j)]
                },
            *final(d) == marked(*old(d), x, y, w as u32, h as u32),
    {
        let rows: usize = if y < 768 {
            if h < (768 - y) as usize {
                h
            } else {
                (768 - y) as usize
            }
        } else {
            0
        };
        let cols: usize = if x < 1024 {
            if w < (1024 - x) as usize {
                w
            } else {
                (1024 - x) as usize
            }
        } else {
            0
        };
        let ghost wi = w as int;
        let mut row: usize = 0;
        while row < rows
            invariant
                self.wf(),
                self.initialized == old(self).initialized,
                rows == rows_on(y, h),
                cols == cols_on(x, w),
                cols <= w,
                rows * w <= usize::MAX,
                wi == w,
                rows == 0 || y + rows <= 768,
                cols == 0 || x + cols <= 1024,
                row <= rows,
                forall|i: int, j: int|
                    0 <= i < 1024 && 0 <= j < 768 ==> #[trigger] self.fb@[pix(i, j)] == if x <= i < x + cols && y <= j < y + row
                        && mask_hit(buf@, mask@, slot(i, j, x as int, y as int, wi)) {
                        buf@[slot(i, j, x as int, y as int, wi)]
                    } else {
                        old(self).fb@[pix(i, j)]
                    },
            decreases rows - row,
        {
            assert(row * wi + wi <= rows * wi) by (nonlinear_arith)
                requires
                    row < rows,
                    wi >= 0,
            ;
            let ghost before = self.fb@;
            let off = row * w;
            if cols > 0 {
                self.write_row_masked(y + row as u32, x, cols, buf, mask, off);
            }
            proof {
                assert forall|i: int, j: int| 0 <= i < 1024 && 0 <= j < 768 implies #[trigger] self.fb@[pix(i, j)] == if x <= i < x + cols
                    && y <= j < y + row + 1 && mask_hit(buf@, mask@, slot(i, j, x as int, y as int, wi)) {
                    buf@[slot(i, j, x as int, y as int, wi)]
                } else {
                    old(self).fb@[pix(i, j)]
                } by {
                    if j == y + row && x <= i < x + cols {
                        assert(slot(i, j, x as int, y as int, wi) == off + i - x) by (nonlinear_arith)
                            requires
                                j == y + row,
                                off == row * wi,
                        ;
                    } else {
                        assert(self.fb@[pix(i, j)] == before[pix(i, j)]);
                    }
                }
            }
            row = row + 1;
        }
        mark_dirty(d, x, y, w as u32, h as u32);
    }
}

/// Every on-screen cell of the `w`×`h` cursor at (`x`, `y`) has its byte in the bitmap.
pub open spec fn cursor_indexable(x: i32, y: i32, w: usize, h: usize, len: int) -> bool {
    forall|r: int, c: int|
        0 <= r < h && 0 <= c < w && 0 <= y + r < 768 && 0 <= x + c < 1024 ==> #[trigger] (r * w + c) < len
}

impl GpuDriver {
    /// Paint row `j` under a cursor row: column `x + c` (on screen) takes the
    /// colour of bitmap byte `off + c`.
    fn cursor_row(&mut self, j: u32, x: i32, w: usize, bitmap: &[u8], off: usize)
        requires
            old(self).wf(),
            j < 768,
            w <= 0x7fff_ffff,
            x + w <= 0x8000_0000,
            forall|c: int| 0 <= c < w && 0 <= x + c < 1024 ==> #[trigger] (off + c) < bitmap.len(),
        ensures
            final(self).wf(),
            final(self).initialized == old(self).initialized,
            forall|i: int, jj: int|
                0 <= i < 1024 && 0 <= jj < 768 ==> #[trigger] final(self).fb@[pix(i, jj)] == if jj == j && x <= i < x + w {
                    cursor_px(old(self).fb@[pix(i, jj)], bitmap@[off + i - x])
                } else {
                    old(self).fb@[pix(i, jj)]
                },
    {
        let row: usize = (j as usize) * PIXELS_PER_ROW;
        let mut c: usize = 0;
        while c < w
            invariant
                self.wf(),
                self.initialized == old(self).initialized,
                j < 768,
                w <= 0x7fff_ffff,
                x + w <= 0x8000_0000,
                row == j * 1024,
                c <= w,
                forall|cc: int| 0 <= cc < w && 0 <= x + cc < 1024 ==> #[trigger] (off + cc) < bitmap.len(),
                forall|i: int, jj: int|
                    0 <= i < 1024 && 0 <= jj < 768 ==> #[trigger] self.fb@[pix(i, jj)] == if jj == j && x <= i < x + c {
                        cursor_px(old(self).fb@[pix(i, jj)], bitmap@[off + i - x])
                    } else {
                        old(self).fb@[pix(i, jj)]
                    },
            decreases w - c,
        {
            let cx: i32 = x + c as i32;
            if cx >= 0 && cx < 1024 {
                assert((off + c) < bitmap.len());
                let t = bitmap[off + c];
                if t == 1 || t == 2 {
                    let color: u32 = if t == 1 {
                        0xFF00_0000
                    } else {
                        0xFFFF_FFFF
                    };
                    let ghost before = self.fb@;
                    self.fb.set(row + cx as usize, color);
                    proof {
                        assert forall|i: int, jj: int| 0 <= i < 1024 && 0 <= jj < 768 implies #[trigger] self.fb@[pix(i, jj)] == if jj
                            == j && x <= i < x + c + 1 {
                            cursor_px(old(self).fb@[pix(i, jj)], bitmap@[off + i - x])
                        } else {
                            old(self).fb@[pix(i, jj)]
                        } by {
                            if pix(i, jj) == row + cx {
                                assert(i == cx && jj == j);
                            } else {
                                assert(before[pix(i, jj)] == self.fb@[pix(i, jj)]);
                            }
                        }
                    }
                }
            }
            c = c + 1;
        }
    }

    /// Draw a cursor bitmap (`w` bytes per row: 1 black, 2 white, anything
    /// else transparent) with its corner at (`x`, `y`), clipped to the
    /// screen, and mark its box (from the clipped corner) dirty.
    pub fn draw_cursor_bitmap(&mut self, d: &mut DisplayState, x: i32, y: i32, w: usize, h: usize, bitmap: &[u8])
        requires
            old(self).wf(),
            w <= 0x7fff_ffff,
            h <= 0x7fff_ffff,
            x + w <= 0x8000_0000,
            y + h <= 0x8000_0000,
            cursor_indexable(x, y, w, h, bitmap.len() as int),
        ensures
            final(self).wf(),
            final(self).initialized == old(self).initialized,
            forall|i: int, j: int|
                0 <= i < 1024 && 0 <= j < 768 ==> #[trigger] final(self).fb@[pix(i, j)] == if under_cursor(i, j, x, y, w, h) {
                    cursor_px(old(self).fb@[pix(i, j)], bitmap@[slot(i, j, x as int, y as int, w as int)])
                } else {
                    old(self).fb@[pix(i, j)]
                },
            *final(d) == marked(
                *old(d),
                (if x < 0 { 0 } else { x }) as u32,
                (if y < 0 { 0 } else { y }) as u32,
                w as u32,
                h as u32,
            ),
    {
        let ghost wi = w as int;
        let mut row: usize = 0;
        while row < h
            invariant
                self.wf(),
                self.initialized == old(self).initialized,
                wi == w,
                w <= 0x7fff_ffff,
                h <= 0x7fff_ffff,
                x + w <= 0x8000_0000,
                y + h <= 0x8000_0000,
                cursor_indexable(x, y, w, h, bitmap.len() as int),
                row <= h,
                forall|i: int, j: int|
                    0 <= i < 1024 && 0 <= j < 768 ==> #[trigger] self.fb@[pix(i, j)] == if x <= i < x + w && y <= j < y + row {
                        cursor_px(old(self).fb@[pix(i, j)], bitmap@[slot(i, j, x as int, y as int, wi)])
                    } else {
                        old(self).fb@[pix(i, j)]
                    },
            decreases h - row,
        {
            let cy: i32 = y + row as i32;
            let ghost before = self.fb@;
            if cy >= 0 && cy < 768 {
                match row.checked_mul(w) {
                    Some(off) => {
                        assert forall|c: int| 0 <= c < w && 0 <= x + c < 1024 implies #[trigger] (off + c) < bitmap.len() by {
                            assert((row * w + c) < bitmap.len());
                        }
                        self.cursor_row(cy as u32, x, w, bitmap, off);
                        proof {
                            assert forall|i: int, j: int| 0 <= i < 1024 && 0 <= j < 768 implies #[trigger] self.fb@[pix(i, j)] == if x
                                <= i < x + w && y <= j < y + row + 1 {
                                cursor_px(old(self).fb@[pix(i, j)], bitmap@[slot(i, j, x as int, y as int, wi)])
                            } else {
                                old(self).fb@[pix(i, j)]
                            } by {
                                if j == cy && x <= i < x + w {
                                    assert(slot(i, j, x as int, y as int, wi) == off + i - x) by (nonlinear_arith)
                                        requires
                                            j == y + row,
                                            off == row * wi,
                                    ;
                                    assert(before[pix(i, j)] == old(self).fb@[pix(i, j)]);
                                } else {
                                    assert(self.fb@[pix(i, j)] == before[pix(i, j)]);
                                }
                            }
                        }
                    },
                    None => {
                        proof {
                            assert forall|i: int, j: int| 0 <= i < 1024 && 0 <= j < 768 implies #[trigger] self.fb@[pix(i, j)] == if x
                                <= i < x + w && y <= j < y + row + 1 {
                                cursor_px(old(self).fb@[pix(i, j)], bitmap@[slot(i, j, x as int, y as int, wi)])
                            } else {
                                old(self).fb@[pix(i, j)]
                            } by {
                                if j == cy && x <= i < x + w {
                                    let c = i - x;
                                    assert((row * w + c) < bitmap.len());
                                }
                            }
                        }
                    },
                }
            }
            row = row + 1;
        }
        let cx: u32 = if x < 0 {
            0
        } else {
            x as u32
        };
        let cyy: u32 = if y < 0 {
            0
        } else {
            y as u32
        };
        mark_dirty(d, cx, cyy, w as u32, h as u32);
    }

    /// The scanout buffer as bytes: each pixel little-endian, row after row
    /// (4096 bytes per row).
    pub fn framebuffer_bytes(&self) -> (r: Vec<u8>)
        requires
            self.wf(),
        ensures
            r@.len() == FB_STRIDE * 768,
            forall|k: int| 0 <= k < FB_PIXELS ==> #[trigger] r@.subrange(4 * k, 4 * k + 4) == le_bytes(self.fb@[k]),
    {
        let mut out: Vec<u8> = Vec::new();
        let mut k: usize = 0;
        while k < FB_PIXELS
            invariant
                self.wf(),
                k <= FB_PIXELS,
                out@.len() == 4 * k,
                forall|q: int| 0 <= q < k ==> #[trigger] out@.subrange(4 * q, 4 * q + 4) == le_bytes(self.fb@[q]),
            decreases FB_PIXELS - k,
        {
            let p = self.fb[k];
            let ghost before = out@;
            out.push((p % 256) as u8);
            out.push(((p / 256) % 256) as u8);
            out.push(((p / 65536) % 256) as u8);
            out.push((p / 16777216) as u8);
            proof {
                assert(out@.subrange(4 * k, 4 * k + 4) =~= le_bytes(p));
                assert forall|q: int| 0 <= q < k + 1 implies #[trigger] out@.subrange(4 * q, 4 * q + 4) == le_bytes(self.fb@[q]) by {
                    if q < k {
                        assert(out@.subrange(4 * q, 4 * q + 4) =~= before.subrange(4 * q, 4 * q + 4));
                    }
                }
            }
            k = k + 1;
        }
        out
    }
}

} // verus!
