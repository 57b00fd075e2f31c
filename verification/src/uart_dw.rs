//! The DesignWare 8250 console of the D1 board: transmit queue and register
//! decoding (registers are 32 bits wide, four bytes apart).
use vstd::prelude::*;
use vstd::string::StringSliceAdditionalSpecFns;
use crate::fmt::push_bytes;

verus! {

/// Base address of UART0.
pub const DW_UART_BASE: usize = 0x0250_0000;
pub const DW_RBR: usize = 0x00;
pub const DW_THR: usize = 0x00;
pub const DW_IER: usize = 0x04;
pub const DW_FCR: usize = 0x08;
pub const DW_LCR: usize = 0x0C;
pub const DW_LSR: usize = 0x14;
/// LSR: data ready.
pub const LSR_DR: u32 = 1;
/// LSR: transmit holding register empty.
pub const LSR_THRE: u32 = 0x20;
/// FIFO enable, receive FIFO reset, transmit FIFO reset.
pub const FCR_FIFO_EN: u32 = 1;
pub const FCR_RX_RST: u32 = 2;
pub const FCR_TX_RST: u32 = 4;
/// 8 data bits, no parity, one stop bit.
pub const LCR_8N1: u32 = 0x03;

/// The console: its register block and the bytes waiting to be sent.
pub struct DwConsole {
    pub base: usize,
    pub tx: Vec<u8>,
}

impl DwConsole {
    pub fn new() -> (c: Self)
        ensures
            c.base == DW_UART_BASE,
            c.tx@.len() == 0,
    {
        DwConsole { base: DW_UART_BASE, tx: Vec::new() }
    }

    /// The register writes that set the UART up (the boot loader already set
    /// the baud rate): interrupts off, FIFOs on and reset, 8N1.
    pub fn init(&self) -> (w: Vec<(usize, u32)>)
        ensures
            w@ == seq![(DW_IER, 0u32), (DW_FCR, 7u32), (DW_LCR, LCR_8N1)],
    {
        let mut w: Vec<(usize, u32)> = Vec::new();
        w.push((DW_IER, 0));
        w.push((DW_FCR, FCR_FIFO_EN | FCR_RX_RST | FCR_TX_RST));
        assert(FCR_FIFO_EN | FCR_RX_RST | FCR_TX_RST == 7u32) by (bit_vector);
        w.push((DW_LCR, LCR_8N1));
        w
    }

    /// Queue one byte.
    pub fn write_byte(&mut self, byte: u8)
        ensures
            final(self).tx@ == old(self).tx@.push(byte),
            final(self).base == old(self).base,
    {
        self.tx.push(byte);
    }

    /// The received byte, if the line status register says one is waiting.
    pub fn read_byte(lsr: u32, rbr: u32) -> (r: Option<u8>)
        ensures
            r == if lsr & LSR_DR != 0 {
                Some(rbr as u8)
            } else {
                None
            },
    {
        if lsr & LSR_DR != 0 {
            Some(rbr as u8)
        } else {
            None
        }
    }

    /// The next byte of a stream of polls: the first one that found data. The
    /// console spins until a byte arrives; `polls` are its successive
    /// (LSR, RBR) readings, and `None` means none of them had one yet.
    pub fn read_byte_blocking(polls: &Vec<(u32, u32)>) -> (r: Option<u8>)
        ensures
            match r {
                Some(b) => exists|i: int|
                    0 <= i < polls@.len() && polls@[i].0 & LSR_DR != 0 && b == polls@[i].1 as u8 && (
                    forall|j: int| 0 <= j < i ==> #[trigger] polls@[j].0 & LSR_DR == 0),
                None => forall|j: int| 0 <= j < polls@.len() ==> #[trigger] polls@[j].0 & LSR_DR == 0,
            },
    {
        let mut i: usize = 0;
        while i < polls.len()
            invariant
                i <= polls@.len(),
                forall|j: int| 0 <= j < i ==> #[trigger] polls@[j].0 & LSR_DR == 0,
            decreases polls@.len() - i,
        {
            let (lsr, rbr) = polls[i];
            match Self::read_byte(lsr, rbr) {
                Some(b) => {
                    return Some(b);
                },
                None => {},
            }
            i = i + 1;
        }
        None
    }
}

/// Queue a string.
pub fn write_str(console: &mut DwConsole, s: &str)
    ensures
        final(console).tx@ == old(console).tx@ + s.spec_bytes(),
        final(console).base == old(console).base,
{
    push_bytes(&mut console.tx, s.as_bytes());
}

/// Queue a string and a newline.
pub fn write_line(console: &mut DwConsole, s: &str)
    ensures
        final(console).tx@ == old(console).tx@ + s.spec_bytes() + seq![0x0au8],
        final(console).base == old(console).base,
{
    write_str(console, s);
    console.write_byte(0x0a);
}

/// Queue one byte.
pub fn write_byte(console: &mut DwConsole, byte: u8)
    ensures
        final(console).tx@ == old(console).tx@.push(byte),
        final(console).base == old(console).base,
{
    console.write_byte(byte);
}

/// Whether input is waiting, by the line status register.
pub fn has_pending_input(lsr: u32) -> (r: bool)
    ensures
        r == (lsr & LSR_DR != 0),
{
    lsr & LSR_DR != 0
}

/// The waiting byte, if any, by the line status and receive registers.
pub fn read_char_nonblocking(lsr: u32, rbr: u32) -> (r: Option<u8>)
    ensures
        r == if lsr & LSR_DR != 0 {
            Some(rbr as u8)
        } else {
            None
        },
{
    DwConsole::read_byte(lsr, rbr)
}

} // verus!
