//! The block device the filesystem reads and writes sectors through.
use vstd::prelude::*;
use crate::platform::d1_mmc::{le_words, seen_within, D1Mmc, INT_DATA_OVER, SECTOR_SIZE, SECTOR_WORDS, WAIT_POLLS};

verus! {

/// Sector transfers as the filesystem sees them: a read is finished from
/// the FIFO words and status polls of the transfer, a write from its
/// status polls.
pub trait SectorIo {
    fn read_sector(&mut self, buf: &mut [u8], fifo: &[u32], status_polls: &[u32]) -> Result<(), &'static str>
        requires
            old(buf)@.len() >= 512 ==> fifo@.len() == 128,
    ;

    fn write_sector(&mut self, buf: &[u8], status_polls: &[u32]) -> Result<(), &'static str>;

    fn capacity(&self) -> u64;
}

/// The machine's block device.
pub enum BlockDeviceState {
    /// The D1's SD card.
    Mmc(D1Mmc),
}

impl BlockDeviceState {
    /// The card behind the device.
    pub open spec fn mmc(&self) -> D1Mmc {
        match self {
            BlockDeviceState::Mmc(d) => *d,
        }
    }

    /// Finish a sector read (see `D1Mmc::read_sector`).
    pub fn read_sector(&mut self, buf: &mut [u8], fifo: &[u32], status_polls: &[u32]) -> (r: Result<(), &'static str>)
        requires
            old(buf)@.len() >= SECTOR_SIZE ==> fifo@.len() == SECTOR_WORDS,
        ensures
            old(buf)@.len() < SECTOR_SIZE ==> final(buf)@ == old(buf)@ && (r matches Err(e) && e@
                == "IO Error"@),
            old(buf)@.len() >= SECTOR_SIZE ==> final(buf)@ == le_words(fifo@) + old(buf)@.skip(512) && match r {
                Ok(()) => seen_within(status_polls@, WAIT_POLLS as int, INT_DATA_OVER),
                Err(e) => !seen_within(status_polls@, WAIT_POLLS as int, INT_DATA_OVER) && e@
                    == "IO Error"@,
            },
            final(self).mmc() == old(self).mmc(),
    {
        match self {
            BlockDeviceState::Mmc(d) => d.read_sector(buf, fifo, status_polls),
        }
    }

    /// Finish a sector write (see `D1Mmc::write_sector`).
    pub fn write_sector(&mut self, buf: &[u8], status_polls: &[u32]) -> (r: Result<(), &'static str>)
        ensures
            buf@.len() < SECTOR_SIZE ==> (r matches Err(e) && e@ == "IO Error"@),
            buf@.len() >= SECTOR_SIZE ==> match r {
                Ok(()) => seen_within(status_polls@, WAIT_POLLS as int, INT_DATA_OVER),
                Err(e) => !seen_within(status_polls@, WAIT_POLLS as int, INT_DATA_OVER) && e@
                    == "IO Error"@,
            },
            final(self).mmc() == old(self).mmc(),
    {
        match self {
            BlockDeviceState::Mmc(d) => d.write_sector(buf, status_polls),
        }
    }

    /// The device's size in sectors.
    pub fn capacity(&self) -> (n: u64)
        ensures
            n == self.mmc().sector_count,
    {
        match self {
            BlockDeviceState::Mmc(d) => d.capacity(),
        }
    }
}

impl SectorIo for BlockDeviceState {
    fn read_sector(&mut self, buf: &mut [u8], fifo: &[u32], status_polls: &[u32]) -> (r: Result<(), &'static str>)
        ensures
            old(buf)@.len() < SECTOR_SIZE ==> final(buf)@ == old(buf)@ && (r matches Err(e) && e@
                == "IO Error"@),
            old(buf)@.len() >= SECTOR_SIZE ==> final(buf)@ == le_words(fifo@) + old(buf)@.skip(512) && match r {
                Ok(()) => seen_within(status_polls@, WAIT_POLLS as int, INT_DATA_OVER),
                Err(e) => !seen_within(status_polls@, WAIT_POLLS as int, INT_DATA_OVER) && e@
                    == "IO Error"@,
            },
            final(self).mmc() == old(self).mmc(),
    {
        BlockDeviceState::read_sector(self, buf, fifo, status_polls)
    }

    fn write_sector(&mut self, buf: &[u8], status_polls: &[u32]) -> (r: Result<(), &'static str>)
        ensures
            buf@.len() < SECTOR_SIZE ==> (r matches Err(e) && e@ == "IO Error"@),
            buf@.len() >= SECTOR_SIZE ==> match r {
                Ok(()) => seen_within(status_polls@, WAIT_POLLS as int, INT_DATA_OVER),
                Err(e) => !seen_within(status_polls@, WAIT_POLLS as int, INT_DATA_OVER) && e@
                    == "IO Error"@,
            },
            final(self).mmc() == old(self).mmc(),
    {
        BlockDeviceState::write_sector(self, buf, status_polls)
    }

    fn capacity(&self) -> (n: u64)
        ensures
            n == self.mmc().sector_count,
    {
        BlockDeviceState::capacity(self)
    }
}

} // verus!
