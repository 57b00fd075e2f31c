//! The D1 SD/MMC host controller: card bring-up decisions, the register
//! writes of single-block transfers, how FIFO words map to sector bytes,
//! and where the filesystem partition starts.
use vstd::prelude::*;
use crate::mmio::RegOp;

verus! {

pub const MMC0_BASE: usize = 0x0402_0000;
pub const SMHC_CTRL: usize = 0x00;
pub const SMHC_CLKDIV: usize = 0x04;
pub const SMHC_TMOUT: usize = 0x08;
pub const SMHC_BLKSIZ: usize = 0x10;
pub const SMHC_BYTCNT: usize = 0x14;
pub const SMHC_CMD: usize = 0x18;
pub const SMHC_CMDARG: usize = 0x1C;
pub const SMHC_RESP0: usize = 0x20;
pub const SMHC_RESP1: usize = 0x24;
pub const SMHC_RINTSTS: usize = 0x38;
pub const SMHC_STATUS: usize = 0x3C;
pub const SMHC_FIFO: usize = 0x200;
pub const CMD_START: u32 = 0x8000_0000;
pub const CMD_USE_HOLD: u32 = 0x2000_0000;
pub const CMD_UPDATE_CLK: u32 = 0x0020_0000;
pub const CMD_WAIT_PRE_OVER: u32 = 0x2000;
pub const CMD_CHK_RESP_CRC: u32 = 0x100;
pub const CMD_LONG_RESP: u32 = 0x80;
pub const CMD_RESP_EXP: u32 = 0x40;
pub const CMD_DATA_EXP: u32 = 0x200;
pub const CMD_WRITE: u32 = 0x400;
pub const STATUS_FIFO_EMPTY: u32 = 0x4;
pub const STATUS_FIFO_FULL: u32 = 0x8;
pub const INT_RESP_ERR: u32 = 0x2;
pub const INT_CMD_DONE: u32 = 0x4;
pub const INT_DATA_OVER: u32 = 0x8;
pub const INT_RESP_CRC_ERR: u32 = 0x40;
pub const INT_DATA_CRC_ERR: u32 = 0x80;
pub const INT_RESP_TIMEOUT: u32 = 0x100;
/// Polls of a command's completion before it times out.
pub const CMD_POLLS: usize = 100_000;
/// Polls of a reset, a clock update or a data transfer before they time out.
pub const WAIT_POLLS: usize = 10_000;
/// Bytes per sector.
pub const SECTOR_SIZE: usize = 512;
/// 32-bit FIFO words per sector.
pub const SECTOR_WORDS: usize = 128;

/// Why a block operation failed.
#[derive(Clone, Copy, PartialEq, Eq, Structural)]
pub enum BlockError {
    NotReady,
    Timeout,
    ReadFailed,
    BufferSize,
    InvalidSector,
}

/// The controller: its registers, the card's size in sectors, the start of
/// the filesystem partition (added to every sector number), and whether
/// the card is up.
pub struct D1Mmc {
    pub base: usize,
    pub sector_count: u64,
    pub partition_offset: u64,
    pub initialized: bool,
}

/// Whether any of the first `limit` polls of an interrupt status has `bit` set.
pub open spec fn seen_within(polls: Seq<u32>, limit: int, bit: u32) -> bool {
    exists|i: int| 0 <= i < polls.len() && i < limit && #[trigger] (polls[i] & bit) != 0
}

/// The bytes of a sector read as FIFO words: each word little-endian.
pub open spec fn le_words(w: Seq<u32>) -> Seq<u8> {
    Seq::new(4 * w.len(), |k: int| ((w[k / 4] as int / pow256(k % 4)) % 256) as u8)
}

pub open spec fn pow256(k: int) -> int {
    if k == 0 {
        1
    } else if k == 1 {
        256
    } else if k == 2 {
        65536
    } else {
        16777216
    }
}

/// The FIFO words of a sector's bytes: each word little-endian.
pub open spec fn words_of(b: Seq<u8>) -> Seq<u32> {
    Seq::new(
        (b.len() / 4) as nat,
        |i: int|
            (b[4 * i] as int + b[4 * i + 1] as int * 256 + b[4 * i + 2] as int * 65536 + b[4 * i + 3] as int
                * 16777216) as u32,
    )
}

/// The card's size in sectors from the CSD (version 2) response words:
/// C_SIZE (bits 69..48) + 1 units of 512 KiB.
pub open spec fn csd_capacity(csd0: u32, csd1: u32) -> u64 {
    (((csd1 % 64) as int * 65536 + (csd0 / 65536) as int + 1) * 1024) as u64
}

/// The start sector of the first Linux (type 0x83) partition of a signed MBR.
pub open spec fn linux_partition_from(mbr: Seq<u8>, i: int) -> Option<u64>
    decreases 4 - i,
{
    if i < 0 || i >= 4 {
        None
    } else if mbr[446 + 16 * i + 4] == 0x83 {
        let o = 446 + 16 * i + 8;
        Some((mbr[o] as int + mbr[o + 1] as int * 256 + mbr[o + 2] as int * 65536 + mbr[o + 3] as int
            * 16777216) as u64)
    } else {
        linux_partition_from(mbr, i + 1)
    }
}

pub open spec fn linux_partition(mbr: Seq<u8>) -> Option<u64> {
    if mbr[510] != 0x55 || mbr[511] != 0xAA {
        None
    } else {
        linux_partition_from(mbr, 0)
    }
}

/// The single-block command (17 read, 24 write) on `arg`, after the byte
/// count, block size and interrupt status are set up.
pub open spec fn block_command(arg: u32, write: bool) -> Seq<RegOp> {
    seq![
        RegOp::Write { addr: (MMC0_BASE + SMHC_BYTCNT) as usize, value: 512 },
        RegOp::Write { addr: (MMC0_BASE + SMHC_BLKSIZ) as usize, value: 512 },
        RegOp::Write { addr: (MMC0_BASE + SMHC_RINTSTS) as usize, value: 0xFFFF_FFFF },
        RegOp::Write { addr: (MMC0_BASE + SMHC_CMDARG) as usize, value: arg },
        RegOp::Write {
            addr: (MMC0_BASE + SMHC_CMD) as usize,
            value: if write { 0xA000_0758u32 } else { 0xA000_0351u32 },
        },
    ]
}

fn block_command_ops(arg: u32, write: bool) -> (ops: Vec<RegOp>)
    ensures
        ops@ == block_command(arg, write),
{
    let cmd: u32 = if write {
        CMD_START | CMD_USE_HOLD | 24 | CMD_RESP_EXP | CMD_DATA_EXP | CMD_WRITE | CMD_CHK_RESP_CRC
    } else {
        CMD_START | CMD_USE_HOLD | 17 | CMD_RESP_EXP | CMD_DATA_EXP | CMD_CHK_RESP_CRC
    };
    assert(0x8000_0000u32 | 0x2000_0000u32 | 24u32 | 0x40u32 | 0x200u32 | 0x400u32 | 0x100u32
        == 0xA000_0758u32) by (bit_vector);
    assert(0x8000_0000u32 | 0x2000_0000u32 | 17u32 | 0x40u32 | 0x200u32 | 0x100u32 == 0xA000_0351u32)
        by (bit_vector);
    let mut ops: Vec<RegOp> = Vec::new();
    ops.push(RegOp::Write { addr: MMC0_BASE + SMHC_BYTCNT, value: 512 });
    ops.push(RegOp::Write { addr: MMC0_BASE + SMHC_BLKSIZ, value: 512 });
    ops.push(RegOp::Write { addr: MMC0_BASE + SMHC_RINTSTS, value: 0xFFFF_FFFF });
    ops.push(RegOp::Write { addr: MMC0_BASE + SMHC_CMDARG, value: arg });
    ops.push(RegOp::Write { addr: MMC0_BASE + SMHC_CMD, value: cmd });
    assert(ops@ =~= block_command(arg, write));
    ops
}

/// Whether a transfer completed: the data-over bit within the polls.
pub fn transfer_done(status_polls: &[u32]) -> (r: Result<(), BlockError>)
    ensures
        r is Ok <==> seen_within(status_polls@, WAIT_POLLS as int, INT_DATA_OVER),
        r matches Err(e) ==> e == BlockError::Timeout,
{
    let mut i: usize = 0;
    while i < status_polls.len() && i < WAIT_POLLS
        invariant
            i <= status_polls@.len(),
            i <= WAIT_POLLS,
            forall|j: int| 0 <= j < i ==> #[trigger] (status_polls@[j] & INT_DATA_OVER) == 0,
        decreases status_polls@.len() - i,
    {
        if status_polls[i] & INT_DATA_OVER != 0 {
            return Ok(());
        }
        i = i + 1;
    }
    Err(BlockError::Timeout)
}

/// How a command ended, from the raw interrupt status polls: the first poll
/// with command-done decides (a response error, CRC error or timeout bit
/// means failure); none within the limit is a timeout.
pub open spec fn cmd_outcome(polls: Seq<u32>, i: int) -> Result<(), BlockError>
    decreases polls.len() - i,
{
    if i < 0 || i >= polls.len() || i >= CMD_POLLS {
        Err(BlockError::Timeout)
    } else if polls[i] & INT_CMD_DONE != 0 {
        if polls[i] & (INT_RESP_ERR | INT_RESP_CRC_ERR | INT_RESP_TIMEOUT) != 0 {
            Err(BlockError::ReadFailed)
        } else {
            Ok(())
        }
    } else {
        cmd_outcome(polls, i + 1)
    }
}

/// Send command `cmd` with `arg` and `flags`: clear the interrupt status,
/// set the argument, start the command.
pub fn send_cmd(cmd: u32, arg: u32, flags: u32) -> (ops: Vec<RegOp>)
    ensures
        ops@ == seq![
            RegOp::Write { addr: (MMC0_BASE + SMHC_RINTSTS) as usize, value: 0xFFFF_FFFF },
            RegOp::Write { addr: (MMC0_BASE + SMHC_CMDARG) as usize, value: arg },
            RegOp::Write {
                addr: (MMC0_BASE + SMHC_CMD) as usize,
                value: CMD_START | CMD_USE_HOLD | (cmd & 0x3F) | flags,
            },
        ],
{
    let mut ops: Vec<RegOp> = Vec::new();
    ops.push(RegOp::Write { addr: MMC0_BASE + SMHC_RINTSTS, value: 0xFFFF_FFFF });
    ops.push(RegOp::Write { addr: MMC0_BASE + SMHC_CMDARG, value: arg });
    ops.push(RegOp::Write { addr: MMC0_BASE + SMHC_CMD, value: CMD_START | CMD_USE_HOLD | (cmd & 0x3F) | flags });
    assert(ops@ =~= seq![
        RegOp::Write { addr: (MMC0_BASE + SMHC_RINTSTS) as usize, value: 0xFFFF_FFFF },
        RegOp::Write { addr: (MMC0_BASE + SMHC_CMDARG) as usize, value: arg },
        RegOp::Write {
            addr: (MMC0_BASE + SMHC_CMD) as usize,
            value: CMD_START | CMD_USE_HOLD | (cmd & 0x3F) | flags,
        },
    ]);
    ops
}

/// How a command ended (see `cmd_outcome`).
pub fn cmd_result(status_polls: &[u32]) -> (r: Result<(), BlockError>)
    ensures
        r == cmd_outcome(status_polls@, 0),
{
    let mut i: usize = 0;
    while i < status_polls.len() && i < CMD_POLLS
        invariant
            i <= status_polls@.len(),
            i <= CMD_POLLS,
            cmd_outcome(status_polls@, 0) == cmd_outcome(status_polls@, i as int),
        decreases status_polls@.len() - i,
    {
        let st = status_polls[i];
        if st & INT_CMD_DONE != 0 {
            if st & (INT_RESP_ERR | INT_RESP_CRC_ERR | INT_RESP_TIMEOUT) != 0 {
                return Err(BlockError::ReadFailed);
            }
            return Ok(());
        }
        i = i + 1;
    }
    Err(BlockError::Timeout)
}

/// A software reset finished when the control register's reset bits read
/// zero within the polls.
pub fn wait_reset(ctrl_polls: &[u32]) -> (r: Result<(), BlockError>)
    ensures
        r is Ok <==> exists|i: int| 0 <= i < ctrl_polls@.len() && i < WAIT_POLLS && #[trigger] (ctrl_polls@[i]
            & 7) == 0,
        r matches Err(e) ==> e == BlockError::Timeout,
{
    let mut i: usize = 0;
    while i < ctrl_polls.len() && i < WAIT_POLLS
        invariant
            i <= ctrl_polls@.len(),
            i <= WAIT_POLLS,
            forall|j: int| 0 <= j < i ==> #[trigger] (ctrl_polls@[j] & 7) != 0,
        decreases ctrl_polls@.len() - i,
    {
        if ctrl_polls[i] & 7 == 0 {
            return Ok(());
        }
        i = i + 1;
    }
    Err(BlockError::Timeout)
}

/// A clock update finished when the command register's start bit reads
/// zero within the polls.
pub fn update_clock(cmd_polls: &[u32]) -> (r: Result<(), BlockError>)
    ensures
        r is Ok <==> exists|i: int| 0 <= i < cmd_polls@.len() && i < WAIT_POLLS && #[trigger] (cmd_polls@[i]
            & CMD_START) == 0,
        r matches Err(e) ==> e == BlockError::Timeout,
{
    let mut i: usize = 0;
    while i < cmd_polls.len() && i < WAIT_POLLS
        invariant
            i <= cmd_polls@.len(),
            i <= WAIT_POLLS,
            forall|j: int| 0 <= j < i ==> #[trigger] (cmd_polls@[j] & CMD_START) != 0,
        decreases cmd_polls@.len() - i,
    {
        if cmd_polls[i] & CMD_START == 0 {
            return Ok(());
        }
        i = i + 1;
    }
    Err(BlockError::Timeout)
}

/// The card answered CMD8 (SEND_IF_COND) with the check pattern 0xAA.
pub fn check_if_cond(resp0: u32) -> (r: Result<(), BlockError>)
    ensures
        r is Ok <==> resp0 % 256 == 0xAA,
        r matches Err(e) ==> e == BlockError::NotReady,
{
    if resp0 & 0xFF != 0xAA {
        assert(resp0 & 0xFF == resp0 % 256) by (bit_vector);
        return Err(BlockError::NotReady);
    }
    assert(resp0 & 0xFF == resp0 % 256) by (bit_vector);
    Ok(())
}

/// ACMD41's answer says the card finished powering up (bit 31).
pub fn card_ready(resp0: u32) -> (r: bool)
    ensures
        r == (resp0 >= 0x8000_0000),
{
    assert(resp0 & 0x8000_0000 != 0 <==> resp0 >= 0x8000_0000u32) by (bit_vector);
    resp0 & 0x8000_0000 != 0
}

/// The relative card address in CMD3's answer (its upper half).
pub fn relative_address(resp0: u32) -> (rca: u32)
    ensures
        rca == resp0 - resp0 % 65536,
{
    assert(resp0 & 0xFFFF_0000 == resp0 - resp0 % 65536) by (bit_vector);
    resp0 & 0xFFFF_0000
}

/// The card's size in sectors (see `csd_capacity`).
pub fn parse_csd_capacity(csd0: u32, csd1: u32) -> (n: u64)
    ensures
        n == csd_capacity(csd0, csd1),
{
    let c_size: u32 = ((csd1 & 0x3F) << 16u32) | ((csd0 >> 16u32) & 0xFFFF);
    assert(((csd1 & 0x3F) << 16u32) | ((csd0 >> 16u32) & 0xFFFF) == (csd1 % 64) * 65536 + csd0 / 65536)
        by (bit_vector);
    ((c_size as u64) + 1) * 1024
}

/// Where the filesystem partition starts: from the MBR, if it could be read
/// (see `linux_partition`).
pub fn find_linux_partition(mbr: Option<&[u8]>) -> (r: Option<u64>)
    requires
        mbr matches Some(m) ==> m@.len() >= 512,
    ensures
        r == match mbr {
            Some(m) => linux_partition(m@),
            None => None,
        },
{
    let m = match mbr {
        Some(m) => m,
        None => {
            return None;
        },
    };
    if m[510] != 0x55 || m[511] != 0xAA {
        return None;
    }
    let mut i: usize = 0;
    while i < 4
        invariant
            i <= 4,
            m@.len() >= 512,
            m@[510] == 0x55 && m@[511] == 0xAA,
            mbr == Some(m),
            linux_partition(m@) == linux_partition_from(m@, i as int),
        decreases 4 - i,
    {
        let o = 446 + i * 16;
        if m[o + 4] == 0x83 {
            let lba: u32 = (m[o + 8] as u32) + (m[o + 9] as u32) * 256 + (m[o + 10] as u32) * 65536 + (
            m[o + 11] as u32) * 16777216;
            assert(o as int == 446 + 16 * (i as int));
            assert(linux_partition_from(m@, i as int) == Some(lba as u64));
            return Some(lba as u64);
        }
        i = i + 1;
    }
    None
}

impl D1Mmc {
    /// The controller of the SD card slot, before the card is brought up.
    pub fn new() -> (m: Self)
        ensures
            m.base == MMC0_BASE,
            m.sector_count == 0,
            m.partition_offset == 0,
            !m.initialized,
    {
        D1Mmc { base: MMC0_BASE, sector_count: 0, partition_offset: 0, initialized: false }
    }

    /// The card's size in sectors.
    pub fn capacity(&self) -> (n: u64)
        ensures
            n == self.sector_count,
    {
        self.sector_count
    }

    /// Finish bringing the card up: its size from the CSD words, the
    /// partition offset from the MBR when one is found (else it stays).
    pub fn init_finish(&mut self, csd0: u32, csd1: u32, mbr: Option<&[u8]>)
        requires
            mbr matches Some(m) ==> m@.len() >= 512,
        ensures
            final(self).sector_count == csd_capacity(csd0, csd1),
            final(self).partition_offset == match (match mbr {
                Some(m) => linux_partition(m@),
                None => None,
            }) {
                Some(o) => o,
                None => old(self).partition_offset,
            },
            final(self).initialized,
            final(self).base == old(self).base,
    {
        self.sector_count = parse_csd_capacity(csd0, csd1);
        match find_linux_partition(mbr) {
            Some(o) => {
                self.partition_offset = o;
            },
            None => {},
        }
        self.initialized = true;
    }

    /// The register writes that start reading `sector` of the partition
    /// (its number truncated to 32 bits, as the command argument is).
    pub fn read_command(&self, sector: u64) -> (ops: Vec<RegOp>)
        requires
            sector + self.partition_offset <= u64::MAX,
        ensures
            ops@ == block_command((sector + self.partition_offset) as u32, false),
    {
        block_command_ops((sector + self.partition_offset) as u32, false)
    }

    /// The register writes that start writing `sector` of the partition.
    pub fn write_command(&self, sector: u64) -> (ops: Vec<RegOp>)
        requires
            sector + self.partition_offset <= u64::MAX,
        ensures
            ops@ == block_command((sector + self.partition_offset) as u32, true),
    {
        block_command_ops((sector + self.partition_offset) as u32, true)
    }

    /// The register writes that read absolute `sector` (the MBR), without
    /// the partition offset.
    pub fn read_raw_command(sector: u64) -> (ops: Vec<RegOp>)
        ensures
            ops@ == block_command(sector as u32, false),
    {
        block_command_ops(sector as u32, false)
    }

    /// Finish reading a sector into `buf` from the 128 words the FIFO gave
    /// and the interrupt status polls that followed. A buffer shorter than a
    /// sector is refused untouched; otherwise its first 512 bytes take the
    /// words, and the read fails unless the transfer completed.
    pub fn read_sector(&mut self, buf: &mut [u8], fifo: &[u32], status_polls: &[u32]) -> (r: Result<(), &'static str>)
        requires
            old(buf)@.len() >= SECTOR_SIZE ==> fifo@.len() == SECTOR_WORDS,
        ensures
            old(buf)@.len() < SECTOR_SIZE ==> final(buf)@ == old(buf)@ && (r matches Err(e) && e@
                == "IO Error"@),
            old(buf)@.len() >= SECTOR_SIZE ==> final(buf)@ == le_words(fifo@) + old(buf)@.skip(512) && match r {
                Ok(()) => seen_within(status_polls@, WAIT_POLLS as int, INT_DATA_OVER),
                Err(e) => !seen_within(status_polls@, WAIT_POLLS as int, INT_DATA_OVER) && e@
                    == "IO Error"@,
            },
            final(self).sector_count == old(self).sector_count,
            final(self).partition_offset == old(self).partition_offset,
            final(self).initialized == old(self).initialized,
            final(self).base == old(self).base,
    {
        if buf.len() < SECTOR_SIZE {
            return Err("IO Error");
        }
        let mut i: usize = 0;
        while i < SECTOR_WORDS
            invariant
                i <= SECTOR_WORDS,
                fifo@.len() == SECTOR_WORDS,
                buf@.len() == old(buf)@.len(),
                buf@.len() >= SECTOR_SIZE,
                forall|k: int| 0 <= k < 4 * i ==> #[trigger] buf@[k] == le_words(fifo@)[k],
                forall|k: int| 4 * i <= k < buf@.len() ==> #[trigger] buf@[k] == old(buf)@[k],
            decreases SECTOR_WORDS - i,
        {
            let w = fifo[i];
            buf[4 * i] = (w % 256) as u8;
            buf[4 * i + 1] = ((w / 256) % 256) as u8;
            buf[4 * i + 2] = ((w / 65536) % 256) as u8;
            buf[4 * i + 3] = ((w / 16777216) % 256) as u8;
            proof {
                assert forall|k: int| 0 <= k < 4 * (i + 1) implies #[trigger] buf@[k] == le_words(fifo@)[k] by {
                    if k >= 4 * i {
                        assert(k / 4 == i as int);
                    }
                }
            }
            i = i + 1;
        }
        assert(buf@ =~= le_words(fifo@) + old(buf)@.skip(512));
        match transfer_done(status_polls) {
            Ok(()) => Ok(()),
            Err(_) => Err("IO Error"),
        }
    }

    /// Finish writing a sector from `buf` (its first 512 bytes went to the
    /// FIFO as `fifo_words`) given the interrupt status polls that followed:
    /// a buffer shorter than a sector is refused; otherwise the write fails
    /// unless the transfer completed.
    pub fn write_sector(&mut self, buf: &[u8], status_polls: &[u32]) -> (r: Result<(), &'static str>)
        ensures
            buf@.len() < SECTOR_SIZE ==> (r matches Err(e) && e@ == "IO Error"@),
            buf@.len() >= SECTOR_SIZE ==> match r {
                Ok(()) => seen_within(status_polls@, WAIT_POLLS as int, INT_DATA_OVER),
                Err(e) => !seen_within(status_polls@, WAIT_POLLS as int, INT_DATA_OVER) && e@
                    == "IO Error"@,
            },
            final(self).sector_count == old(self).sector_count,
            final(self).partition_offset == old(self).partition_offset,
            final(self).initialized == old(self).initialized,
            final(self).base == old(self).base,
    {
        if buf.len() < SECTOR_SIZE {
            return Err("IO Error");
        }
        match transfer_done(status_polls) {
            Ok(()) => Ok(()),
            Err(_) => Err("IO Error"),
        }
    }

    /// Check a multi-sector access from `start_sector` with a buffer of
    /// `len` bytes: the card must be up and the start inside it; the answer
    /// is how many whole sectors the buffer holds.
    pub fn check_access(&self, start_sector: u64, len: usize) -> (r: Result<usize, BlockError>)
        ensures
            !self.initialized ==> r == Err::<usize, BlockError>(BlockError::NotReady),
            self.initialized && start_sector >= self.sector_count ==> r == Err::<usize, BlockError>(
                BlockError::InvalidSector,
            ),
            self.initialized && start_sector < self.sector_count ==> r == Ok::<usize, BlockError>(
                len / 512,
            ),
    {
        if !self.initialized {
            return Err(BlockError::NotReady);
        }
        if start_sector >= self.sector_count {
            return Err(BlockError::InvalidSector);
        }
        Ok(len / SECTOR_SIZE)
    }

    /// The card's size in sectors.
    pub fn sector_count(&self) -> (n: u64)
        ensures
            n == self.sector_count,
    {
        self.sector_count
    }
}

/// The FIFO words a sector write sends: `buf`'s first 512 bytes,
/// little-endian words; a buffer shorter than a sector is refused.
pub fn fifo_words(buf: &[u8]) -> (r: Result<Vec<u32>, BlockError>)
    ensures
        buf@.len() < SECTOR_SIZE ==> r == Err::<Vec<u32>, BlockError>(BlockError::BufferSize),
        buf@.len() >= SECTOR_SIZE ==> (r matches Ok(w) && w@ == words_of(buf@.subrange(0, 512))),
{
    if buf.len() < SECTOR_SIZE {
        return Err(BlockError::BufferSize);
    }
    let ghost s = buf@.subrange(0, 512);
    let mut w: Vec<u32> = Vec::new();
    let mut i: usize = 0;
    while i < SECTOR_WORDS
        invariant
            i <= SECTOR_WORDS,
            buf@.len() >= SECTOR_SIZE,
            s == buf@.subrange(0, 512),
            w@ == words_of(s).take(i as int),
        decreases SECTOR_WORDS - i,
    {
        let v: u32 = (buf[4 * i] as u32) + (buf[4 * i + 1] as u32) * 256 + (buf[4 * i + 2] as u32) * 65536 + (
        buf[4 * i + 3] as u32) * 16777216;
        w.push(v);
        i = i + 1;
        assert(w@ =~= words_of(s).take(i as int));
    }
    assert(words_of(s).take(128) =~= words_of(s));
    Ok(w)
}

} // verus!
