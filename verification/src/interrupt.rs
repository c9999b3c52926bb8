//! The interrupt controller: `I_STAT` and `I_MASK`.
use vstd::prelude::*;

verus! {

pub const IRQ_VBLANK: u16 = 1u16;
pub const IRQ_GPU: u16 = 2u16;
pub const IRQ_CDROM: u16 = 4u16;
pub const IRQ_DMA: u16 = 8u16;
pub const IRQ_TIMER0: u16 = 0x10u16;
pub const IRQ_TIMER1: u16 = 0x20u16;
pub const IRQ_TIMER2: u16 = 0x40u16;
pub const IRQ_JOY: u16 = 0x80u16;
pub const IRQ_SIO: u16 = 0x100u16;
pub const IRQ_SPU: u16 = 0x200u16;
pub const IRQ_LIGHTPEN: u16 = 0x400u16;

/// The eleven interrupt lines that exist.
pub const IRQ_LINES: u16 = 0x07ffu16;

/// Requesting a line and then acknowledging it (writing I_STAT with that
/// line's bit zero and the others one) leaves the line clear and every other
/// requested line as it was.
/// The status after requesting `line` when `cond` holds, else unchanged.
pub open spec fn raise_if(status: u16, cond: bool, line: u16) -> u16 {
    if cond { status | (line & IRQ_LINES) } else { status }
}

pub proof fn lemma_acknowledge_clears_only_that_line(status: u16, bit: u16)
    ensures
        (status | (bit & IRQ_LINES)) & (!bit & IRQ_LINES) == status & !bit & IRQ_LINES,
{
    assert((status | (bit & 0x07ffu16)) & (!bit & 0x07ffu16) == status & !bit & 0x07ffu16) by (bit_vector);
}

#[derive(Debug, Clone)]
pub struct InterruptController {
    status: u16,
    mask: u16,
}

impl InterruptController {
    pub closed spec fn spec_status(&self) -> u16 {
        self.status
    }

    pub closed spec fn spec_mask(&self) -> u16 {
        self.mask
    }

    /// An interrupt reaches the CPU when a requested line is also unmasked.
    pub open spec fn spec_pending(&self) -> bool {
        self.spec_status() & self.spec_mask() != 0
    }

    pub fn new() -> (r: Self)
        ensures
            r.spec_status() == 0,
            r.spec_mask() == 0,
    {
        Self { status: 0, mask: 0 }
    }

    pub fn status(&self) -> (r: u16)
        ensures
            r == self.spec_status(),
    {
        self.status
    }

    pub fn mask(&self) -> (r: u16)
        ensures
            r == self.spec_mask(),
    {
        self.mask
    }

    /// Raises the given lines; lines that do not exist are ignored.
    pub fn request(&mut self, bit: u16)
        ensures
            final(self).spec_status() == old(self).spec_status() | (bit & IRQ_LINES),
            final(self).spec_mask() == old(self).spec_mask(),
    {
        self.status = self.status | (bit & 0x07ff);
    }

    /// Writing `I_STAT` clears every line whose bit is written as zero.
    pub fn acknowledge(&mut self, value: u16)
        ensures
            final(self).spec_status() == old(self).spec_status() & (value & IRQ_LINES),
            final(self).spec_mask() == old(self).spec_mask(),
    {
        self.status = self.status & (value & 0x07ff);
    }

    pub fn set_mask(&mut self, value: u16)
        ensures
            final(self).spec_mask() == value & IRQ_LINES,
            final(self).spec_status() == old(self).spec_status(),
    {
        self.mask = value & 0x07ff;
    }

    pub fn pending(&self) -> (r: bool)
        ensures
            r == self.spec_pending(),
    {
        (self.status & self.mask) != 0
    }
}

} // verus!

verus! {

impl Default for InterruptController {
    fn default() -> (r: Self)
        ensures
            r.spec_status() == 0,
            r.spec_mask() == 0,
    {
        Self::new()
    }
}

} // verus!
