//! The MDEC macroblock decoder's register interface.
use vstd::prelude::*;

verus! {

/// Status bit 31: the data-out FIFO is empty.
pub const MDEC_STATUS_FIFO_EMPTY: u32 = 0x8000_0000u32;

#[derive(Debug, Clone)]
pub struct Mdec {
    pub command: u32,
    pub status: u32,
}

impl Mdec {
    pub fn new() -> (r: Self)
        ensures
            r.command == 0,
            r.status == MDEC_STATUS_FIFO_EMPTY,
    {
        Self { command: 0, status: 0x8000_0000 }
    }

    /// The data-out port has no decoded output yet and reads as zero.
    pub fn read_data(&self) -> (r: u32)
        ensures
            r == 0,
    {
        0
    }

    /// A command or parameter word; it is latched and the FIFO leaves the empty state.
    pub fn write_data(&mut self, value: u32)
        ensures
            final(self).command == value,
            final(self).status == old(self).status & !MDEC_STATUS_FIFO_EMPTY,
    {
        self.command = value;
        self.status = self.status & !0x8000_0000u32;
    }

    pub fn read_status(&self) -> (r: u32)
        ensures
            r == self.status,
    {
        self.status
    }

    /// Bit 31 of the control port resets the decoder; other writes are ignored.
    pub fn write_control(&mut self, value: u32)
        ensures
            (value & 0x8000_0000) != 0 ==> final(self).command == 0 && final(self).status == MDEC_STATUS_FIFO_EMPTY,
            (value & 0x8000_0000) == 0 ==> *final(self) == *old(self),
    {
        if (value & 0x8000_0000) != 0 {
            self.command = 0;
            self.status = 0x8000_0000;
        }
    }
}

impl Default for Mdec {
    fn default() -> (r: Self)
        ensures
            r.command == 0,
            r.status == MDEC_STATUS_FIFO_EMPTY,
    {
        Self::new()
    }
}

} // verus!
