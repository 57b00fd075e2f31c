//! The D1 audio codec: its settings and the register accesses that apply them.
use vstd::prelude::*;
use crate::mmio::RegOp;

verus! {

pub const D1_AUDIO_BASE: usize = 0x0203_0000;
pub const CODEC_CTL: usize = 0x0203_0000;
pub const CODEC_STS: usize = 0x0203_0004;
pub const CODEC_DATA: usize = 0x0203_0008;
pub const CODEC_BUF_LEVEL: usize = 0x0203_000C;
pub const CODEC_SAMPLE_RATE: usize = 0x0203_0010;
pub const CTL_ENABLE: u32 = 0x1;
pub const CTL_RESET: u32 = 0x2;
pub const STS_BUFFER_FULL: u32 = 0x1;
pub const STS_BUFFER_EMPTY: u32 = 0x2;
pub const STS_UNDERRUN: u32 = 0x4;
/// Sample rate until one is set.
pub const DEFAULT_SAMPLE_RATE: u32 = 48000;
/// Spin iterations the codec is held in reset.
pub const RESET_SPINS: u32 = 100;

/// What the driver knows about the codec.
pub struct AudioState {
    pub initialized: bool,
    pub sample_rate: u32,
    pub enabled: bool,
}

impl AudioState {
    pub fn new() -> (s: Self)
        ensures
            !s.initialized,
            s.sample_rate == DEFAULT_SAMPLE_RATE,
            !s.enabled,
    {
        AudioState { initialized: false, sample_rate: DEFAULT_SAMPLE_RATE, enabled: false }
    }
}

/// Pulse the reset bit, then program the sample rate.
pub open spec fn reset_sequence(rate: u32) -> Seq<RegOp> {
    seq![
        RegOp::Write { addr: CODEC_CTL, value: CTL_RESET },
        RegOp::Spin { count: RESET_SPINS },
        RegOp::Write { addr: CODEC_CTL, value: 0 },
        RegOp::Write { addr: CODEC_SAMPLE_RATE, value: rate },
    ]
}

fn reset_ops(rate: u32) -> (ops: Vec<RegOp>)
    ensures
        ops@ == reset_sequence(rate),
{
    let mut ops: Vec<RegOp> = Vec::new();
    ops.push(RegOp::Write { addr: CODEC_CTL, value: CTL_RESET });
    ops.push(RegOp::Spin { count: RESET_SPINS });
    ops.push(RegOp::Write { addr: CODEC_CTL, value: 0 });
    ops.push(RegOp::Write { addr: CODEC_SAMPLE_RATE, value: rate });
    assert(ops@ =~= reset_sequence(rate));
    ops
}

/// Bring the codec up: reset it, program the sample rate, mark it initialized.
pub fn init(st: &mut AudioState) -> (r: Result<Vec<RegOp>, &'static str>)
    ensures
        r matches Ok(ops) && ops@ == reset_sequence(old(st).sample_rate),
        final(st).initialized,
        final(st).sample_rate == old(st).sample_rate,
        final(st).enabled == old(st).enabled,
{
    let ops = reset_ops(st.sample_rate);
    st.initialized = true;
    Ok(ops)
}

pub fn is_initialized(st: &AudioState) -> (r: bool)
    ensures
        r == st.initialized,
{
    st.initialized
}

/// Turn playback on or off.
pub fn set_enabled(st: &mut AudioState, enabled: bool) -> (op: RegOp)
    ensures
        op == (RegOp::Write {
            addr: CODEC_CTL,
            value: if enabled {
                CTL_ENABLE
            } else {
                0
            },
        }),
        final(st).enabled == enabled,
        final(st).initialized == old(st).initialized,
        final(st).sample_rate == old(st).sample_rate,
{
    st.enabled = enabled;
    RegOp::Write {
        addr: CODEC_CTL,
        value: if enabled {
            CTL_ENABLE
        } else {
            0
        },
    }
}

pub fn is_enabled(st: &AudioState) -> (r: bool)
    ensures
        r == st.enabled,
{
    st.enabled
}

/// Change the sample rate.
pub fn set_sample_rate(st: &mut AudioState, rate: u32) -> (op: RegOp)
    ensures
        op == (RegOp::Write { addr: CODEC_SAMPLE_RATE, value: rate }),
        final(st).sample_rate == rate,
        final(st).initialized == old(st).initialized,
        final(st).enabled == old(st).enabled,
{
    st.sample_rate = rate;
    RegOp::Write { addr: CODEC_SAMPLE_RATE, value: rate }
}

pub fn get_sample_rate(st: &AudioState) -> (r: u32)
    ensures
        r == st.sample_rate,
{
    st.sample_rate
}

/// The FIFO is full, by the status register.
pub fn is_buffer_full(status: u32) -> (r: bool)
    ensures
        r == (status & STS_BUFFER_FULL != 0),
{
    status & STS_BUFFER_FULL != 0
}

/// The FIFO is empty, by the status register.
pub fn is_buffer_empty(status: u32) -> (r: bool)
    ensures
        r == (status & STS_BUFFER_EMPTY != 0),
{
    status & STS_BUFFER_EMPTY != 0
}

/// The FIFO ran dry, by the status register.
pub fn has_underrun(status: u32) -> (r: bool)
    ensures
        r == (status & STS_UNDERRUN != 0),
{
    status & STS_UNDERRUN != 0
}

/// Samples in the FIFO: the buffer-level register as read.
pub fn buffer_level(level_reg: u32) -> (r: u32)
    ensures
        r == level_reg,
{
    level_reg
}

/// Queue a sample unless the FIFO is full (`None`: refused).
pub fn write_sample(status: u32, sample: u32) -> (op: Option<RegOp>)
    ensures
        status & STS_BUFFER_FULL != 0 ==> op is None,
        status & STS_BUFFER_FULL == 0 ==> op == Some(RegOp::Write { addr: CODEC_DATA, value: sample }),
{
    if is_buffer_full(status) {
        return None;
    }
    Some(RegOp::Write { addr: CODEC_DATA, value: sample })
}

/// A stereo frame as one FIFO word: right channel high, left channel low.
pub open spec fn stereo_word(left: i16, right: i16) -> u32 {
    (((right as u16) as u32) * 0x10000 + ((left as u16) as u32)) as u32
}

/// Queue a stereo frame unless the FIFO is full.
pub fn write_stereo(status: u32, left: i16, right: i16) -> (op: Option<RegOp>)
    ensures
        status & STS_BUFFER_FULL != 0 ==> op is None,
        status & STS_BUFFER_FULL == 0 ==> op == Some(
            RegOp::Write { addr: CODEC_DATA, value: stereo_word(left, right) },
        ),
{
    let sample: u32 = ((right as u32) << 16) | ((left as u16) as u32);
    assert(((right as u32) << 16) | ((left as u16) as u32) == (((right as u16) as u32) * 0x10000 + ((
    left as u16) as u32)) as u32) by (bit_vector);
    write_sample(status, sample)
}

/// Clear the underrun flag, keeping the other status bits.
pub fn clear_underrun(status: u32) -> (op: RegOp)
    ensures
        op == (RegOp::Write { addr: CODEC_STS, value: status & !STS_UNDERRUN }),
{
    RegOp::Write { addr: CODEC_STS, value: status & !STS_UNDERRUN }
}

/// Reset the codec, keep its sample rate, and leave playback off.
pub fn reset(st: &mut AudioState) -> (ops: Vec<RegOp>)
    ensures
        ops@ == reset_sequence(old(st).sample_rate),
        !final(st).enabled,
        final(st).initialized == old(st).initialized,
        final(st).sample_rate == old(st).sample_rate,
{
    let ops = reset_ops(st.sample_rate);
    st.enabled = false;
    ops
}

} // verus!
