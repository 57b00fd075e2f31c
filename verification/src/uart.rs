//! The NS16550A console: what goes out on it and how its registers are read.
//!
//! The console collects the bytes to transmit; the platform layer hands them
//! to the UART's transmit register one by one.
use vstd::prelude::*;
use vstd::string::StringSliceAdditionalSpecFns;
use crate::fmt::{dec_text, hex_char, hex_text, push_bytes, push_decimal, push_hex};

verus! {

/// Receiver buffer register offset (read).
pub const RBR: usize = 0x00;
/// Transmitter holding register offset (write).
pub const THR: usize = 0x00;
/// Interrupt enable register offset.
pub const IER: usize = 0x01;
/// FIFO control register offset (write).
pub const FCR: usize = 0x02;
/// Line control register offset.
pub const LCR: usize = 0x03;
/// Line status register offset.
pub const LSR: usize = 0x05;
/// LSR: a received byte is waiting.
pub const LSR_RX_READY: u8 = 0x01;
/// LSR: the transmit holding register is empty.
pub const LSR_TX_IDLE: u8 = 0x20;

/// The console's transmit side: bytes waiting to go out, oldest first.
pub struct Console {
    pub tx: Vec<u8>,
}

impl Console {
    pub fn new() -> (c: Self)
        ensures
            c.tx@.len() == 0,
    {
        Console { tx: Vec::new() }
    }

    /// The register writes that set the UART up: interrupts off, divisor 1
    /// (115200 baud) through DLAB, 8N1, FIFOs on and cleared with a 14-byte
    /// threshold.
    pub fn init() -> (w: Vec<(usize, u8)>)
        ensures
            w@ == seq![(IER, 0x00u8), (LCR, 0x80u8), (0usize, 0x01u8), (1usize, 0x00u8), (LCR, 0x03u8), (FCR, 0xC7u8)],
    {
        let mut w: Vec<(usize, u8)> = Vec::new();
        w.push((IER, 0x00));
        w.push((LCR, 0x80));
        w.push((0, 0x01));
        w.push((1, 0x00));
        w.push((LCR, 0x03));
        w.push((FCR, 0xC7));
        w
    }

    /// The transmitter can take a byte, by the line status register.
    pub fn is_tx_idle(lsr: u8) -> (r: bool)
        ensures
            r == (lsr & LSR_TX_IDLE != 0),
    {
        lsr & LSR_TX_IDLE != 0
    }

    /// A byte is waiting, by the line status register.
    pub fn is_rx_ready(lsr: u8) -> (r: bool)
        ensures
            r == (lsr & LSR_RX_READY != 0),
    {
        lsr & LSR_RX_READY != 0
    }

    /// Queue one byte for transmission.
    pub fn write_byte(&mut self, byte: u8)
        ensures
            final(self).tx@ == old(self).tx@.push(byte),
    {
        self.tx.push(byte);
    }

    /// The received byte, or 0 when none is waiting (by the line status register).
    pub fn read_byte(lsr: u8, rbr: u8) -> (b: u8)
        ensures
            b == if lsr & LSR_RX_READY != 0 {
                rbr
            } else {
                0
            },
    {
        if Self::is_rx_ready(lsr) {
            rbr
        } else {
            0
        }
    }
}

/// Queue a string.
pub fn write_str(console: &mut Console, s: &str)
    ensures
        final(console).tx@ == old(console).tx@ + s.spec_bytes(),
{
    push_bytes(&mut console.tx, s.as_bytes());
}

/// Queue a string and a newline.
pub fn write_line(console: &mut Console, s: &str)
    ensures
        final(console).tx@ == old(console).tx@ + s.spec_bytes() + seq![0x0au8],
{
    write_str(console, s);
    console.write_byte(0x0a);
}

/// Queue raw bytes.
pub fn write_bytes(console: &mut Console, bytes: &[u8])
    ensures
        final(console).tx@ == old(console).tx@ + bytes@,
{
    push_bytes(&mut console.tx, bytes);
}

/// Queue an unsigned number in decimal.
pub fn write_u64(console: &mut Console, n: u64)
    ensures
        final(console).tx@ == old(console).tx@ + dec_text(n as nat),
{
    push_decimal(&mut console.tx, n);
}

/// Queue an unsigned number in lower-case hexadecimal, without leading zeros.
pub fn write_hex(console: &mut Console, n: u64)
    ensures
        final(console).tx@ == old(console).tx@ + hex_text(n as nat),
{
    push_hex(&mut console.tx, n);
}

/// Queue a byte as exactly two lower-case hexadecimal digits.
pub fn write_hex_byte(console: &mut Console, b: u8)
    ensures
        final(console).tx@ == old(console).tx@ + seq![hex_char((b / 16) as nat), hex_char((b % 16) as nat)],
{
    let hi = b / 16;
    let lo = b % 16;
    console.write_byte(if hi < 10 {
        0x30 + hi
    } else {
        0x61 + hi - 10
    });
    console.write_byte(if lo < 10 {
        0x30 + lo
    } else {
        0x61 + lo - 10
    });
    assert(final(console).tx@ =~= old(console).tx@ + seq![hex_char((b / 16) as nat), hex_char((b % 16) as nat)]);
}

} // verus!
