//! The DMA controller's registers: seven channels, `DPCR` and `DICR`.
use vstd::prelude::*;

verus! {

#[derive(Debug, Clone, Copy)]
pub struct DmaChannel {
    pub madr: u32,
    pub bcr: u32,
    pub chcr: u32,
}

#[derive(Debug, Clone, Copy, PartialEq, Eq, Structural)]
pub struct DmaWriteResult {
    pub irq_edge: bool,
}

impl Default for DmaWriteResult {
    fn default() -> (r: Self)
        ensures
            !r.irq_edge,
    {
        DmaWriteResult { irq_edge: false }
    }
}

/// CHCR bit 24: the channel is busy / requested to start.
pub const CHCR_START: u32 = 0x0100_0000u32;
/// CHCR bit 28: force a start without waiting for the device request.
pub const CHCR_TRIGGER: u32 = 0x1000_0000u32;
/// The CHCR bits that exist on channel 6 (start, trigger, bit 30).
pub const CHCR_OTC_MASK: u32 = 0x5100_0000u32;
/// The CHCR bits that exist on channels 0 to 5.
pub const CHCR_WRITE_MASK: u32 = 0x7177_0703u32;

impl DmaChannel {
    pub open spec fn spec_active(&self) -> bool {
        self.chcr & CHCR_START != 0
    }

    pub open spec fn spec_sync_mode(&self) -> u32 {
        (self.chcr >> 9u32) & 3u32
    }

    pub open spec fn spec_from_ram(&self) -> bool {
        self.chcr & 1 != 0
    }

    pub open spec fn spec_step_backwards(&self) -> bool {
        self.chcr & 2 != 0
    }

    /// Active, and either device-synchronised or forced to start.
    pub open spec fn spec_ready_to_start(&self) -> bool {
        self.spec_active() && (self.spec_sync_mode() != 0 || self.chcr & CHCR_TRIGGER != 0)
    }

    pub fn new() -> (r: Self)
        ensures
            r.madr == 0 && r.bcr == 0 && r.chcr == 0,
    {
        Self { madr: 0, bcr: 0, chcr: 0 }
    }

    pub fn active(&self) -> (r: bool)
        ensures
            r == self.spec_active(),
    {
        (self.chcr & 0x0100_0000) != 0
    }

    pub fn sync_mode(&self) -> (r: u32)
        ensures
            r == self.spec_sync_mode(),
            r <= 3,
    {
        proof {
            crate::bits::lemma_and_le_u32(self.chcr >> 9u32, 3u32);
        }
        (self.chcr >> 9) & 0x3
    }

    pub fn from_ram(&self) -> (r: bool)
        ensures
            r == self.spec_from_ram(),
    {
        (self.chcr & 1) != 0
    }

    pub fn step_backwards(&self) -> (r: bool)
        ensures
            r == self.spec_step_backwards(),
    {
        (self.chcr & 2) != 0
    }

    pub fn chopping_enabled(&self) -> (r: bool)
        ensures
            r == (self.chcr & 0x100 != 0),
    {
        (self.chcr & 0x100) != 0
    }

    pub fn ready_to_start(&self) -> (r: bool)
        ensures
            r == self.spec_ready_to_start(),
    {
        self.active() && (self.sync_mode() != 0 || (self.chcr & 0x1000_0000) != 0)
    }
}

impl Default for DmaChannel {
    fn default() -> (r: Self)
        ensures
            r.madr == 0 && r.bcr == 0 && r.chcr == 0,
    {
        Self::new()
    }
}

pub const DPCR_RESET: u32 = 0x0765_4321u32;

#[derive(Debug, Clone)]
pub struct DmaController {
    pub channels: [DmaChannel; 7],
    pub dpcr: u32,
    pub dicr: u32,
}

/// The value channel `channel` keeps of a CHCR write.
pub open spec fn writable_chcr_spec(channel: int, value: u32) -> u32 {
    if channel == 6 {
        (value & CHCR_OTC_MASK) | 2
    } else {
        value & CHCR_WRITE_MASK
    }
}

/// How channel `channel` presents a stored CHCR value.
pub open spec fn readable_chcr_spec(channel: int, value: u32) -> u32 {
    if channel == 6 {
        (value & CHCR_OTC_MASK) | 2
    } else {
        value
    }
}

/// DICR bit 15 forces the master flag; otherwise it is bit 23 (master enable)
/// together with any channel flag in bits 24 to 30.
pub open spec fn master_irq_spec(dicr: u32) -> bool {
    dicr & 0x8000 != 0 || (dicr & 0x0080_0000 != 0 && dicr & 0x7f00_0000 != 0)
}

/// `a` is served before `b`: lower priority value first, and on a tie the
/// higher channel number first.
pub open spec fn served_before(pa: u32, a: int, pb: u32, b: int) -> bool {
    pa < pb || (pa == pb && a >= b)
}

/// What a write of `value` to the DMA register at `offset` does, and the edge it reports.
pub open spec fn dma_register_written(o: DmaController, offset: u32, value: u32, n: DmaController, r: DmaWriteResult) -> bool {
    &&& (r.irq_edge == (!o.spec_master_irq() && n.spec_master_irq()))
    &&& (offset < 0x70 ==> {
        let ch = (offset >> 4u32) & 7u32;
        let reg = offset & 0x0f;
        &&& n.dpcr == o.dpcr
        &&& n.dicr == o.dicr
        &&& ch >= 7 ==> n.channels == o.channels
        &&& ch < 7 ==> {
            &&& forall|j: int| 0 <= j < 7 && j != ch ==> n.channels[j] == o.channels[j]
            &&& n.channels[ch as int] == if reg == 0 {
                DmaChannel { madr: value & 0x00ff_ffff, ..o.channels[ch as int] }
            } else if reg == 4 {
                DmaChannel { bcr: value, ..o.channels[ch as int] }
            } else if reg == 8 || reg == 0xc {
                DmaChannel { chcr: writable_chcr_spec(ch as int, value), ..o.channels[ch as int] }
            } else {
                o.channels[ch as int]
            }
        }
    })
    &&& (offset >= 0x70 ==> {
        &&& n.channels == o.channels
        &&& n.dpcr == if offset == 0x70 { value } else { o.dpcr }
        &&& n.dicr == if offset == 0x74 {
            ((o.dicr & !(value & 0x7f00_0000)) & 0x7f00_0000) | (value & 0x00ff_807f)
        } else {
            o.dicr
        }
    })
}

/// The word `r` that a read of the DMA register at `offset` gives.
pub open spec fn dma_register_read(d: DmaController, offset: u32, r: u32) -> bool {
    &&& offset < 0x70 ==> {
        let ch = (offset >> 4u32) & 7u32;
        let reg = offset & 0x0f;
        r == if ch >= 7 {
            0xffff_ffffu32
        } else if reg == 0 {
            d.channels[ch as int].madr
        } else if reg == 4 {
            d.channels[ch as int].bcr
        } else if reg == 8 || reg == 0xc {
            readable_chcr_spec(ch as int, d.channels[ch as int].chcr)
        } else {
            0xffff_ffffu32
        }
    }
    &&& offset >= 0x70 ==> r == if offset == 0x70 {
        d.dpcr
    } else if offset == 0x74 {
        d.dicr | (if d.spec_master_irq() { 0x8000_0000u32 } else { 0u32 })
    } else if offset == 0x78 {
        0x7ffa_c68bu32
    } else if offset == 0x7c {
        0x00ff_fff7u32
    } else {
        0xffff_ffffu32
    }
}

/// A channel completed with the registers its transfer reported, and whether
/// the master interrupt flag rose (`r`).
pub open spec fn dma_channel_completed(
    o: DmaController,
    index: usize,
    final_madr: Option<u32>,
    final_bcr: Option<u32>,
    bus_error: bool,
    n: DmaController,
    r: bool,
) -> bool {
    &&& (r == (!o.spec_master_irq() && n.spec_master_irq()))
    &&& (n.dpcr == o.dpcr)
    &&& (forall|j: int| 0 <= j < 7 && j != index ==> n.channels[j] == o.channels[j])
    &&& (n.channels[index as int].madr == match final_madr {
        Some(m) => m & 0x00ff_fffc,
        None => o.channels[index as int].madr,
    })
    &&& (n.channels[index as int].bcr == match final_bcr {
        Some(b) => b,
        None => o.channels[index as int].bcr,
    })
    &&& (n.channels[index as int].chcr == readable_chcr_spec(
        index as int,
        o.channels[index as int].chcr & !CHCR_START & !CHCR_TRIGGER,
    ))
    &&& (({
        let d1 = if bus_error { o.dicr | 0x8000 } else { o.dicr };
        n.dicr == if d1 & (1u32 << (16 + index) as u32) != 0 {
            d1 | (1u32 << (24 + index) as u32)
        } else {
            d1
        }
    }))
}

impl DmaController {
    pub open spec fn spec_priority(&self, index: int) -> u32 {
        (self.dpcr >> (index * 4) as u32) & 7u32
    }

    pub open spec fn spec_master_enabled(&self, index: int) -> bool {
        self.dpcr & (1u32 << (index * 4 + 3) as u32) != 0
    }

    pub open spec fn eligible(&self, index: int) -> bool {
        self.channels[index].spec_ready_to_start() && self.spec_master_enabled(index)
    }

    pub open spec fn spec_master_irq(&self) -> bool {
        master_irq_spec(self.dicr)
    }

    pub fn new() -> (r: Self)
        ensures
            forall|i: int| 0 <= i < 7 ==> (#[trigger] r.channels[i]).madr == 0 && r.channels[i].bcr == 0
                && r.channels[i].chcr == 0,
            r.dpcr == DPCR_RESET,
            r.dicr == 0,
    {
        let c = DmaChannel::new();
        Self { channels: [c, c, c, c, c, c, c], dpcr: 0x0765_4321, dicr: 0 }
    }

    pub fn channel(&self, index: usize) -> (r: DmaChannel)
        requires
            index < 7,
        ensures
            r == self.channels[index as int],
    {
        self.channels[index]
    }

    pub fn channel_priority(&self, index: usize) -> (r: u32)
        requires
            index < 7,
        ensures
            r == self.spec_priority(index as int),
    {
        (self.dpcr >> ((index * 4) as u32)) & 0x7
    }

    pub fn master_enabled(&self, index: usize) -> (r: bool)
        requires
            index < 7,
        ensures
            r == self.spec_master_enabled(index as int),
    {
        (self.dpcr & (1u32 << ((index * 4 + 3) as u32))) != 0
    }

    /// The channel that runs next: among the channels that are ready and
    /// enabled in DPCR, the one with the lowest priority value, and on a tie
    /// the highest channel number.
    pub fn next_pending_channel(&self) -> (r: Option<usize>)
        ensures
            match r {
                Some(i) => {
                    &&& i < 7
                    &&& self.eligible(i as int)
                    &&& forall|j: int| 0 <= j < 7 && #[trigger] self.eligible(j) ==> served_before(
                        self.spec_priority(i as int),
                        i as int,
                        self.spec_priority(j),
                        j,
                    )
                },
                None => forall|j: int| 0 <= j < 7 ==> !#[trigger] self.eligible(j),
            },
    {
        let mut best: Option<usize> = None;
        let mut index: usize = 0;
        while index < 7
            invariant
                index <= 7,
                match best {
                    Some(i) => {
                        &&& i < index
                        &&& self.eligible(i as int)
                        &&& forall|j: int| 0 <= j < index && #[trigger] self.eligible(j) ==> served_before(
                            self.spec_priority(i as int),
                            i as int,
                            self.spec_priority(j),
                            j,
                        )
                    },
                    None => forall|j: int| 0 <= j < index ==> !#[trigger] self.eligible(j),
                },
            decreases 7 - index,
        {
            if self.channels[index].ready_to_start() && self.master_enabled(index) {
                let p = self.channel_priority(index);
                match best {
                    None => {
                        best = Some(index);
                    },
                    Some(b) => {
                        if p <= self.channel_priority(b) {
                            best = Some(index);
                        }
                    },
                }
            }
            index += 1;
        }
        best
    }

    /// Reads a DMA register: a channel's MADR/BCR/CHCR, DPCR, DICR (with the
    /// computed master flag in bit 31), or one of the two fixed words.
    pub fn read32(&self, offset: u32) -> (r: u32)
        ensures
            dma_register_read(*self, offset, r),
    {
        if offset < 0x70 {
            let channel = ((offset >> 4) & 0x7) as usize;
            let reg = offset & 0x0f;
            if channel >= 7 {
                return 0xffff_ffff;
            }
            if reg == 0 {
                self.channels[channel].madr
            } else if reg == 4 {
                self.channels[channel].bcr
            } else if reg == 8 || reg == 0xc {
                readable_chcr(channel, self.channels[channel].chcr)
            } else {
                0xffff_ffff
            }
        } else if offset == 0x70 {
            self.dpcr
        } else if offset == 0x74 {
            self.dicr | self.master_irq_bit()
        } else if offset == 0x78 {
            0x7ffa_c68b
        } else if offset == 0x7c {
            0x00ff_fff7
        } else {
            0xffff_ffff
        }
    }

    /// Writes a DMA register.  Writing DICR acknowledges (clears) the channel
    /// flags written as one and replaces the control bits.  The result reports
    /// a rising edge of the master interrupt flag.
    pub fn write32(&mut self, offset: u32, value: u32) -> (r: DmaWriteResult)
        ensures
            dma_register_written(*old(self), offset, value, *final(self), r),
    {
        let master_before = self.master_irq_pending();
        if offset < 0x70 {
            let channel = ((offset >> 4) & 0x7) as usize;
            let reg = offset & 0x0f;
            if channel >= 7 {
                return DmaWriteResult { irq_edge: false };
            }
            let mut ch = self.channels[channel];
            if reg == 0 {
                ch.madr = value & 0x00ff_ffff;
            } else if reg == 4 {
                ch.bcr = value;
            } else if reg == 8 || reg == 0xc {
                ch.chcr = writable_chcr(channel, value);
            }
            self.channels[channel] = ch;
        } else if offset == 0x70 {
            self.dpcr = value;
        } else if offset == 0x74 {
            let ack = value & 0x7f00_0000;
            self.dicr = self.dicr & !ack;
            self.dicr = (self.dicr & 0x7f00_0000) | (value & 0x00ff_807f);
        }
        DmaWriteResult { irq_edge: !master_before && self.master_irq_pending() }
    }

    /// Finishes a transfer on channel `index`: stores the final address and
    /// block count, clears the start and trigger bits, records a bus error, and
    /// sets the channel's DICR flag when its interrupt is enabled.  Returns
    /// whether the master interrupt flag rose.
    pub fn complete_channel(
        &mut self,
        index: usize,
        final_madr: Option<u32>,
        final_bcr: Option<u32>,
        bus_error: bool,
    ) -> (r: bool)
        requires
            index < 7,
        ensures
            dma_channel_completed(*old(self), index, final_madr, final_bcr, bus_error, *final(self), r),
    {
        let master_before = self.master_irq_pending();
        let mut ch = self.channels[index];
        if let Some(madr) = final_madr {
            ch.madr = madr & 0x00ff_fffc;
        }
        if let Some(bcr) = final_bcr {
            ch.bcr = bcr;
        }
        ch.chcr = ch.chcr & !CHCR_START;
        ch.chcr = ch.chcr & !CHCR_TRIGGER;
        if index == 6 {
            ch.chcr = readable_chcr(index, ch.chcr);
        }
        self.channels[index] = ch;
        if bus_error {
            self.dicr = self.dicr | 0x8000;
        }
        if (self.dicr & (1u32 << ((16 + index) as u32))) != 0 {
            self.dicr = self.dicr | (1u32 << ((24 + index) as u32));
        }
        !master_before && self.master_irq_pending()
    }

    pub fn irq_pending(&self) -> (r: bool)
        ensures
            r == self.spec_master_irq(),
    {
        self.master_irq_pending()
    }

    fn master_irq_bit(&self) -> (r: u32)
        ensures
            r == if self.spec_master_irq() { 0x8000_0000u32 } else { 0u32 },
    {
        if self.master_irq_pending() {
            0x8000_0000
        } else {
            0
        }
    }

    fn master_irq_pending(&self) -> (r: bool)
        ensures
            r == self.spec_master_irq(),
    {
        (self.dicr & 0x8000) != 0 || ((self.dicr & 0x0080_0000) != 0 && (self.dicr & 0x7f00_0000) != 0)
    }
}

impl Default for DmaController {
    fn default() -> (r: Self)
        ensures
            r.dpcr == DPCR_RESET,
            r.dicr == 0,
    {
        Self::new()
    }
}

fn writable_chcr(channel: usize, value: u32) -> (r: u32)
    ensures
        r == writable_chcr_spec(channel as int, value),
{
    if channel == 6 {
        (value & CHCR_OTC_MASK) | 2
    } else {
        value & CHCR_WRITE_MASK
    }
}

fn readable_chcr(channel: usize, value: u32) -> (r: u32)
    ensures
        r == readable_chcr_spec(channel as int, value),
{
    if channel == 6 {
        (value & CHCR_OTC_MASK) | 2
    } else {
        value
    }
}

} // verus!
