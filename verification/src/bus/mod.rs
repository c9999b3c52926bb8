//! The memory bus: the physical memory map (main RAM and its mirrors, the
//! scratchpad, I/O ports, expansion region 2, BIOS ROM and the cache control
//! register), the instruction cache, and the devices behind the I/O ports.
pub mod transfer;

use crate::audio::Spu;
use crate::cdrom::Cdrom;
use crate::dma::DmaController;
use crate::gpu::Gpu;
use crate::interrupt::{raise_if, InterruptController, IRQ_CDROM, IRQ_DMA, IRQ_JOY, IRQ_LINES, IRQ_SPU};
use crate::cdrom::{cdrom_read8, cdrom_write8};
use crate::dma::{dma_register_read, dma_register_written, DmaWriteResult};
use transfer::pending_dma_ran;
use crate::gpu::{gp0_read, gp0_written, gp1_written};
use crate::joy::{byte_cycles_spec, joy_control_written, joy_data_read16, joy_data_read32, joy_data_read8, joy_status_spec, joy_ticked};
use crate::audio::spu::{spu_register_read, spu_register_written, spu_ticked};
use crate::timer::{timer_register_read, timer_register_written, timers_ticked};
use crate::joy::JoySerial;
use crate::mdec::{Mdec, MDEC_STATUS_FIFO_EMPTY};
use crate::timer::Timers;
use crate::{BIOS_SIZE, MAIN_RAM_SIZE, SCRATCHPAD_SIZE};
use vstd::prelude::*;

verus! {

broadcast use crate::bits::group_bits;

#[derive(Debug, Clone, Copy, PartialEq, Eq, Structural)]
pub enum CopyToRamError {
    OutOfRange,
}

#[derive(Debug, Clone, Copy, PartialEq, Eq, Structural)]
pub enum FetchError {
    BusError,
}

pub const CACHE_CONTROL_ADDR: u32 = 0xfffe_0130u32;
pub const DEFAULT_CACHE_CONTROL: u32 = 0x0001_e988u32;
pub const ICACHE_WORDS: usize = 1024usize;
pub const ICACHE_LINES: usize = 256usize;
pub const BCC_TAG: u32 = 4u32;
pub const BCC_IS1: u32 = 0x0800u32;
pub const BCC_IBLKSZ_MASK: u32 = 0x0300u32;

#[derive(Debug, Clone)]
pub struct Bus {
    pub ram: Vec<u8>,
    pub scratchpad: Vec<u8>,
    pub bios: Vec<u8>,
    pub io: Vec<u8>,
    pub cache_control: u32,
    pub icache_words: Vec<u32>,
    pub icache_tags: Vec<u32>,
    pub irq: InterruptController,
    pub dma: DmaController,
    pub timers: Timers,
    pub gpu: Gpu,
    pub spu: Spu,
    pub cdrom: Cdrom,
    pub mdec: Mdec,
    pub joy: JoySerial,
    pub open_bus: u32,
}

/// The physical address of a virtual one: KSEG0 and KSEG1 map onto the
/// first 512 MiB, KUSEG and KSEG2 are used as they are.
pub open spec fn physical_addr_spec(addr: u32) -> u32 {
    if addr <= 0x1fff_ffff {
        addr
    } else if 0x8000_0000 <= addr <= 0x9fff_ffff {
        (addr - 0x8000_0000) as u32
    } else if 0xa000_0000 <= addr <= 0xbfff_ffff {
        (addr - 0xa000_0000) as u32
    } else {
        addr
    }
}

/// Main RAM: 2 MiB mirrored four times over the first 8 MiB.
pub open spec fn is_ram(phys: u32) -> bool {
    phys <= 0x007f_ffff
}

pub open spec fn is_scratchpad(phys: u32) -> bool {
    0x1f80_0000 <= phys <= 0x1f80_03ff
}

pub open spec fn is_io(phys: u32) -> bool {
    0x1f80_1000 <= phys <= 0x1f80_1fff
}

pub open spec fn is_expansion2(phys: u32) -> bool {
    0x1f80_2000 <= phys <= 0x1f80_3fff
}

pub open spec fn is_bios(phys: u32) -> bool {
    0x1fc0_0000 <= phys <= 0x1fc7_ffff
}

pub open spec fn is_cache_control(phys: u32) -> bool {
    CACHE_CONTROL_ADDR <= phys <= 0xfffe_0133
}

/// Regions from which instructions can be fetched.
pub open spec fn instruction_accessible(phys: u32) -> bool {
    ||| phys <= 0x007f_ffff
    ||| 0x1f00_0000 <= phys <= 0x1f7f_ffff
    ||| 0x1fa0_0000 <= phys <= 0x1fbf_ffff
    ||| 0x1fc0_0000 <= phys <= 0x1fc7_ffff
}

/// Regions that answer data accesses.
pub open spec fn data_accessible(phys: u32) -> bool {
    ||| phys <= 0x007f_ffff
    ||| 0x1f00_0000 <= phys <= 0x1f7f_ffff
    ||| 0x1f80_0000 <= phys <= 0x1f80_03ff
    ||| 0x1f80_1000 <= phys <= 0x1f80_3fff
    ||| 0x1fa0_0000 <= phys <= 0x1fbf_ffff
    ||| 0x1fc0_0000 <= phys <= 0x1fc7_ffff
    ||| CACHE_CONTROL_ADDR <= phys <= 0xfffe_0133
}

/// The instruction-cache word slot and line of an address.
pub open spec fn icache_word_index_spec(addr: u32) -> int {
    (addr % 0x1000) as int / 4
}

pub open spec fn icache_line_index_spec(addr: u32) -> int {
    (addr % 0x1000) as int / 16
}

/// A byte read of the I/O port at `phys`: the byte `r` it gives and the bus after it.
pub open spec fn io_read8(o: Bus, phys: u32, n: Bus, r: u8) -> bool {
    &&& (n.ram@ == o.ram@)
    &&& (n.scratchpad@ == o.scratchpad@)
    &&& (n.cache_control == o.cache_control)
    &&& (n.open_bus == o.open_bus)
    &&& (0x1f80_1800 <= phys <= 0x1f80_1803 ==> n == (Bus { cdrom: n.cdrom, ..o })
        && cdrom_read8(o.cdrom, (phys - 0x1f80_1800) as u32, n.cdrom, r))
    &&& (0x1f80_1040 <= phys <= 0x1f80_1043 ==> n == (Bus { joy: n.joy, ..o })
        && joy_data_read8(o.joy, n.joy, r))
    &&& (!(0x1f80_1800 <= phys <= 0x1f80_1803) && !(0x1f80_1040 <= phys <= 0x1f80_1043) ==> exists|w: u32|
        #[trigger] io_read32(o, phys & !3u32, n, w) && r == ((w >> ((phys & 3u32) * 8u32)
            as u32) & 0xff) as u8)
}

/// A byte write of `value` to the I/O port at `phys`.
pub open spec fn io_written8(o: Bus, phys: u32, value: u8, n: Bus) -> bool {
    &&& (n.ram@ == o.ram@)
    &&& (n.scratchpad@ == o.scratchpad@)
    &&& (n.cache_control == o.cache_control)
    &&& (n.open_bus == o.open_bus)
    &&& (0x1f80_1800 <= phys <= 0x1f80_1803 ==> n == (Bus { cdrom: n.cdrom, ..o })
        && cdrom_write8(o.cdrom, (phys - 0x1f80_1800) as u32, value, n.cdrom))
    &&& (phys == 0x1f80_1040 ==> n == (Bus { joy: joy_data_written(o.joy, value), ..o }))
    &&& (!(0x1f80_1800 <= phys <= 0x1f80_1803) && phys != 0x1f80_1040 ==> n == (Bus {
        io: n.io,
        ..o
    }) && n.io@ == o.io@.update(phys - 0x1f80_1000, value))
}

/// A halfword write of `value` to the I/O port at `phys`.
pub open spec fn io_written16(o: Bus, phys: u32, value: u16, n: Bus) -> bool {
    &&& (n.ram@ == o.ram@)
    &&& (n.scratchpad@ == o.scratchpad@)
    &&& (n.cache_control == o.cache_control)
    &&& (n.open_bus == o.open_bus)
    &&& ((phys == 0x1f80_1070 || phys == 0x1f80_1074) ==> irq_port_written(o, phys, value, n))
    &&& (0x1f80_1100 <= phys <= 0x1f80_112f ==> n == (Bus { timers: n.timers, ..o })
        && timer_register_written(o.timers, (phys - 0x1f80_1100) as u32, value, n.timers))
    &&& (0x1f80_1c00 <= phys <= 0x1f80_1fff ==> n == (Bus { spu: n.spu, ..o })
        && spu_register_written(o.spu, (phys - 0x1f80_1c00) as u32, value, n.spu))
    &&& (phys == 0x1f80_1040 ==> n == (Bus { joy: joy_data_written(o.joy, value as u8), ..o }))
    &&& (phys == 0x1f80_1048 ==> n == (Bus {
        joy: JoySerial { mode: value & 0x013f, ..o.joy },
        ..o
    }))
    &&& (phys == 0x1f80_104a ==> n == (Bus { joy: n.joy, ..o }) && joy_control_written(
        o.joy,
        value,
        n.joy,
    ))
    &&& (phys == 0x1f80_104e ==> n == (Bus { joy: JoySerial { baud: value, ..o.joy }, ..o }))
    &&& (!is_io16_register(phys) ==> n == (Bus { io: n.io, ..o }) && n.io@
        == o.io@.update(phys - 0x1f80_1000, value as u8).update(
        (phys - 0x1f80_1000 + 1) % 0x2000,
        (value >> 8u16) as u8,
    ))
}

/// A word write of `value` to the I/O port at `phys`.
pub open spec fn io_written32(o: Bus, phys: u32, value: u32, n: Bus) -> bool {
    &&& (n.scratchpad@ == o.scratchpad@)
    &&& (n.cache_control == o.cache_control)
    &&& (n.open_bus == o.open_bus)
    &&& ((phys == 0x1f80_1070 || phys == 0x1f80_1074) ==> irq_port_written(o, phys, value as u16, n))
    &&& (0x1f80_1080 <= phys <= 0x1f80_10ff ==> exists|mid: Bus, res: DmaWriteResult|
        {
            &&& #[trigger] dma_register_written(o.dma, (phys - 0x1f80_1080) as u32, value, mid.dma, res)
            &&& mid == (Bus { dma: mid.dma, irq: mid.irq, ..o })
            &&& mid.irq.spec_mask() == o.irq.spec_mask()
            &&& mid.irq.spec_status() == raise_if(o.irq.spec_status(), res.irq_edge, IRQ_DMA)
            &&& pending_dma_ran(mid, n)
        })
    &&& (0x1f80_1100 <= phys <= 0x1f80_112f ==> n == (Bus { timers: n.timers, ..o })
        && timer_register_written(o.timers, (phys - 0x1f80_1100) as u32, value as u16, n.timers))
    &&& (phys == 0x1f80_1040 ==> n == (Bus { joy: joy_data_written(o.joy, value as u8), ..o }))
    &&& (phys == 0x1f80_1048 ==> n == (Bus { joy: n.joy, ..o }) && joy_control_written(
        JoySerial { mode: (value as u16) & 0x013f, ..o.joy },
        (value >> 16u32) as u16,
        n.joy,
    ))
    &&& (phys == 0x1f80_104c ==> n == (Bus {
        joy: JoySerial { baud: (value >> 16u32) as u16, ..o.joy },
        ..o
    }))
    &&& (phys == 0x1f80_1810 ==> n == (Bus { gpu: n.gpu, ..o }) && gp0_written(
        o.gpu,
        value,
        n.gpu,
    ))
    &&& (phys == 0x1f80_1814 ==> n == (Bus { gpu: n.gpu, ..o }) && gp1_written(
        o.gpu,
        value,
        n.gpu,
    ))
    &&& (phys == 0x1f80_1820 ==> n == (Bus {
        mdec: Mdec { command: value, status: o.mdec.status & !MDEC_STATUS_FIFO_EMPTY },
        ..o
    }))
    &&& (phys == 0x1f80_1824 ==> n == (Bus {
        mdec: if value & 0x8000_0000 != 0 {
            Mdec { command: 0, status: MDEC_STATUS_FIFO_EMPTY }
        } else {
            o.mdec
        },
        ..o
    }))
    &&& (!is_io32_register(phys) ==> n == (Bus { io: n.io, ..o }) && n.io@
        == io_word_written(o.io@, phys - 0x1f80_1000, value))
}

/// A halfword read of the I/O port at `phys`: the halfword `r` it gives and
/// the bus after it.
pub open spec fn io_read16(o: Bus, phys: u32, n: Bus, r: u16) -> bool {
    if phys == 0x1f80_1070 {
        r == o.irq.spec_status() && n == o
    } else if phys == 0x1f80_1074 {
        r == o.irq.spec_mask() && n == o
    } else if 0x1f80_1100 <= phys <= 0x1f80_112f {
        n == (Bus { timers: n.timers, ..o }) && timer_register_read(o.timers, (phys - 0x1f80_1100) as u32, n.timers, r)
    } else if 0x1f80_1c00 <= phys <= 0x1f80_1fff {
        n == o && spu_register_read(o.spu, (phys - 0x1f80_1c00) as u32, r)
    } else if phys == 0x1f80_1040 {
        n == (Bus { joy: n.joy, ..o }) && joy_data_read16(o.joy, n.joy, r)
    } else if phys == 0x1f80_1044 {
        r == joy_status_spec(o.joy) as u16 && n == o
    } else if phys == 0x1f80_1048 {
        r == o.joy.mode && n == o
    } else if phys == 0x1f80_104a {
        r == o.joy.control && n == o
    } else if phys == 0x1f80_104e {
        r == o.joy.baud && n == o
    } else {
        &&& r == (o.io@[phys - 0x1f80_1000] as u16) | ((o.io@[(phys + 1 - 0x1f80_1000) % 0x2000] as u16) << 8u16)
        &&& n == o
    }
}

/// The little-endian word of the I/O byte area at `offset`, wrapping at its end.
pub open spec fn io_word(io: Seq<u8>, offset: int) -> u32 {
    (io[offset] as u32) | ((io[(offset + 1) % 0x2000] as u32) << 8u32) | ((io[(offset + 2) % 0x2000] as u32)
        << 16u32) | ((io[(offset + 3) % 0x2000] as u32) << 24u32)
}

/// A word read of the I/O port at `phys`: the word `r` it gives and the bus
/// after it.  Reads of JOY_RX_DATA, GPUREAD and a counter's mode register
/// have effects; the other ports are only looked at.
pub open spec fn io_read32(o: Bus, phys: u32, n: Bus, r: u32) -> bool {
    if phys == 0x1f80_1070 {
        r == o.irq.spec_status() as u32 && n == o
    } else if phys == 0x1f80_1074 {
        r == o.irq.spec_mask() as u32 && n == o
    } else if 0x1f80_1080 <= phys <= 0x1f80_10ff {
        dma_register_read(o.dma, (phys - 0x1f80_1080) as u32, r) && n == o
    } else if 0x1f80_1100 <= phys <= 0x1f80_112f {
        &&& n == (Bus { timers: n.timers, ..o })
        &&& exists|mid: Timers, lo: u16, hi: u16|
            {
                &&& #[trigger] timer_register_read(o.timers, (phys - 0x1f80_1100) as u32, mid, lo)
                &&& #[trigger] timer_register_read(mid, (phys + 2 - 0x1f80_1100) as u32, n.timers, hi)
                &&& r == (lo as u32) | ((hi as u32) << 16u32)
            }
    } else if phys == 0x1f80_1040 {
        joy_data_read32(o.joy, n.joy, r) && n == (Bus { joy: n.joy, ..o })
    } else if phys == 0x1f80_1044 {
        r == joy_status_spec(o.joy) && n == o
    } else if phys == 0x1f80_1048 {
        r == (o.joy.mode as u32) | ((o.joy.control as u32) << 16u32) && n == o
    } else if phys == 0x1f80_104c {
        r == (o.joy.baud as u32) << 16u32 && n == o
    } else if phys == 0x1f80_1810 {
        gp0_read(o.gpu, n.gpu, r) && n == (Bus { gpu: n.gpu, ..o })
    } else if phys == 0x1f80_1814 {
        r == o.gpu.gp1_status_spec() && n == o
    } else if phys == 0x1f80_1820 {
        r == 0 && n == o
    } else if phys == 0x1f80_1824 {
        r == o.mdec.status && n == o
    } else {
        r == io_word(o.io@, phys - 0x1f80_1000) && n == o
    }
}

/// How the devices advance by `cycles` CPU cycles, with the interrupts they raise.
pub open spec fn bus_ticked(o: Bus, cycles: u32, n: Bus) -> bool {
    &&& n.ram@ == o.ram@
    &&& n == (Bus { timers: n.timers, spu: n.spu, joy: n.joy, irq: n.irq, ..o })
    &&& n.irq.spec_mask() == o.irq.spec_mask()
    &&& exists|timer_status: u16, spu_edge: bool, joy_edge: bool|
        {
            &&& #[trigger] timers_ticked(
                o.timers,
                o.irq.spec_status(),
                cycles,
                n.timers,
                timer_status,
            )
            &&& #[trigger] spu_ticked(o.spu, cycles, n.spu, spu_edge)
            &&& #[trigger] joy_ticked(o.joy, cycles, n.joy, joy_edge)
            &&& n.irq.spec_status() == raise_if(
                raise_if(raise_if(timer_status, spu_edge, IRQ_SPU), joy_edge, IRQ_JOY),
                o.cdrom.spec_interrupt_pending(),
                IRQ_CDROM,
            )
        }
}

/// A word read at `addr`: the word `r` and the bus after it.
pub open spec fn word_read(o: Bus, addr: u32, n: Bus, r: u32) -> bool {
    &&& (n.open_bus == r)
    &&& (n.ram@ == o.ram@)
    &&& (n.scratchpad@ == o.scratchpad@)
    &&& (n.cache_control == o.cache_control)
    &&& (physical_addr_spec(addr) == CACHE_CONTROL_ADDR ==> r == o.cache_control)
    &&& (is_ram(physical_addr_spec(addr)) && addr % 4 == 0 ==> r == o.ram_word(physical_addr_spec(addr)))
    &&& (is_bios(physical_addr_spec(addr)) && addr % 4 == 0 ==> r == o.bios_word(physical_addr_spec(addr)))
    &&& (is_scratchpad(physical_addr_spec(addr)) && addr % 4 == 0 ==> r == o.scratchpad_word(
        physical_addr_spec(addr),
    ))
    &&& ((physical_addr_spec(addr) == CACHE_CONTROL_ADDR || ((is_ram(physical_addr_spec(addr)) || is_bios(
        physical_addr_spec(addr),
    ) || is_scratchpad(physical_addr_spec(addr))) && addr % 4 == 0)) ==> n == (Bus {
        open_bus: r,
        ..o
    }))
    &&& (is_io(physical_addr_spec(addr)) ==> io_read32(
        o,
        physical_addr_spec(addr),
        Bus { open_bus: o.open_bus, ..n },
        r,
    ))
    &&& (n.icache_words == o.icache_words)
    &&& (n.icache_tags == o.icache_tags)
    &&& (n.bios == o.bios)
    &&& !is_io(physical_addr_spec(addr)) && physical_addr_spec(addr) != CACHE_CONTROL_ADDR ==> exists|
        b: Seq<Bus>,
        x: Seq<u8>,
    |
        #![trigger b.len(), x.len()]
        {
            &&& b.len() == 4 && x.len() == 4
            &&& byte_read(o, addr, b[0], x[0])
            &&& byte_read(b[0], ((addr + 1) % 0x1_0000_0000) as u32, b[1], x[1])
            &&& byte_read(b[1], ((addr + 2) % 0x1_0000_0000) as u32, b[2], x[2])
            &&& byte_read(b[2], ((addr + 3) % 0x1_0000_0000) as u32, b[3], x[3])
            &&& r == (x[0] as u32) | ((x[1] as u32) << 8u32) | ((x[2] as u32) << 16u32) | ((x[3] as u32) << 24u32)
            &&& n == (Bus { open_bus: r, ..b[3] })
        }
}

/// The instruction-cache line that holds `addr` filled from its word on.
pub open spec fn icache_filled(o: Bus, addr: u32, n: Bus) -> bool {
    &&& (n.ram@ == o.ram@)
    &&& (({
        let phys = physical_addr_spec(addr);
        let line = icache_line_index_spec(phys);
        let word: int = ((phys / 4) % 4) as int;
        let last: int = if word == 0 && o.cache_control & BCC_IBLKSZ_MASK == 0 { 1 } else { 3 };
        let tag_addr = phys & 0xffff_f000u32;
        let old_tag = o.icache_tags@[line];
        let old_valid = if old_tag & 0xffff_f000u32 == tag_addr { old_tag & 0x0fu32 } else { 0u32 };
        &&& n.icache_tags@ == o.icache_tags@.update(
            line,
            tag_addr | icache_valid_after(old_valid, word, last),
        )
        &&& forall|i: int|
            0 <= i < ICACHE_WORDS && !(line * 4 + word <= i <= line * 4 + last) ==> n.icache_words@[i]
                == o.icache_words@[i]
        &&& forall|s: int|
            word <= s <= last && is_ram(phys) ==> #[trigger] n.icache_words@[line * 4 + s]
                == o.ram_word(physical_addr_spec(icache_fill_addr(addr, s)))
        &&& forall|s: int|
            word <= s <= last && is_bios(phys) ==> #[trigger] n.icache_words@[line * 4 + s]
                == o.bios_word(physical_addr_spec(icache_fill_addr(addr, s)))
    }))
}

/// An instruction fetch at `addr`: refused outside the fetchable regions;
/// otherwise a word read when the instruction cache is off or the address
/// is uncached, else the cache word, the line being filled first on a miss.
pub open spec fn fetched(o: Bus, addr: u32, n: Bus, r: Result<u32, FetchError>) -> bool {
    let p = physical_addr_spec(addr);
    let cached = o.cache_control & BCC_IS1 != 0 && (addr <= 0x1fff_ffff || (0x8000_0000 <= addr <= 0x9fff_ffff));
    let tag = o.icache_tags@[icache_line_index_spec(p)];
    let hit = tag & 0xffff_f000u32 == p & 0xffff_f000u32 && tag & (1u32 << ((p >> 2u32) & 3u32)) != 0;
    if addr >= 0xc000_0000 || !instruction_accessible(p) {
        r is Err && n == o
    } else if !cached {
        r matches Ok(v) && word_read(o, addr, n, v)
    } else if hit {
        r == Ok::<u32, FetchError>(n.icache_words@[icache_word_index_spec(p)]) && n == o
    } else {
        r == Ok::<u32, FetchError>(n.icache_words@[icache_word_index_spec(p)]) && icache_filled(o, addr, n)
    }
}

/// The CPU's instruction read at `addr`: refused outside the fetchable
/// regions, otherwise a word read.
pub open spec fn instruction_read(o: Bus, addr: u32, n: Bus, r: Result<u32, FetchError>) -> bool {
    if addr >= 0xc000_0000 || !instruction_accessible(physical_addr_spec(addr)) {
        r is Err && n == o
    } else {
        r matches Ok(v) && word_read(o, addr, n, v)
    }
}

/// A byte read at `addr`: the byte `r` and the bus after it.
pub open spec fn byte_read(o: Bus, addr: u32, n: Bus, r: u8) -> bool {
    &&& (n.open_bus == (o.open_bus & 0xffff_ff00) | r as u32)
    &&& (!is_io(physical_addr_spec(addr)) ==> r == o.memory_byte(physical_addr_spec(addr)) && n
        == (Bus { open_bus: n.open_bus, ..o }))
    &&& (is_io(physical_addr_spec(addr)) ==> n.ram@ == o.ram@ && n.scratchpad@
        == o.scratchpad@ && n.cache_control == o.cache_control)
    &&& (is_io(physical_addr_spec(addr)) ==> io_read8(
        o,
        physical_addr_spec(addr),
        Bus { open_bus: o.open_bus, ..n },
        r,
    ))
    &&& (n.icache_words == o.icache_words)
    &&& (n.icache_tags == o.icache_tags)
    &&& (n.bios == o.bios)
}

/// A halfword read at `addr`: the halfword `r` and the bus after it.
pub open spec fn half_read(o: Bus, addr: u32, n: Bus, r: u16) -> bool {
    &&& (n.open_bus == (o.open_bus & 0xffff_0000) | r as u32)
    &&& (n.ram@ == o.ram@)
    &&& (n.scratchpad@ == o.scratchpad@)
    &&& (n.cache_control == o.cache_control)
    &&& (is_ram(physical_addr_spec(addr)) && addr % 2 == 0 ==> r == o.ram_half(physical_addr_spec(addr)))
    &&& (is_io(physical_addr_spec(addr)) ==> io_read16(
        o,
        physical_addr_spec(addr),
        Bus { open_bus: o.open_bus, ..n },
        r,
    ))
    &&& !is_io(physical_addr_spec(addr)) ==> exists|b1: Bus, b2: Bus, lo: u8, hi: u8|
        {
            &&& #[trigger] byte_read(o, addr, b1, lo)
            &&& #[trigger] byte_read(b1, ((addr + 1) % 0x1_0000_0000) as u32, b2, hi)
            &&& r == (lo as u16) | ((hi as u16) << 8u16)
            &&& n == (Bus { open_bus: (o.open_bus & 0xffff_0000) | r as u32, ..b2 })
        }
}

/// A byte write of `value` at `addr`.
pub open spec fn byte_written(o: Bus, addr: u32, value: u8, n: Bus) -> bool {
    &&& (n.open_bus == (o.open_bus & 0xffff_ff00) | value as u32)
    &&& (({
        let p = physical_addr_spec(addr);
        &&& is_ram(p) ==> n == (Bus {
            ram: n.ram,
            open_bus: n.open_bus,
            ..o
        }) && n.ram@ == o.ram@.update((p % 0x20_0000) as int, value)
        &&& is_scratchpad(p) ==> n == (Bus {
            scratchpad: n.scratchpad,
            open_bus: n.open_bus,
            ..o
        }) && n.scratchpad@ == o.scratchpad@.update((p - 0x1f80_0000) as int, value)
        &&& is_cache_control(p) ==> n == (Bus {
            cache_control: n.cache_control,
            open_bus: n.open_bus,
            ..o
        })
        &&& is_cache_control(p) ==> n.cache_control == (o.cache_control & !(0xffu32 << ((p - CACHE_CONTROL_ADDR) * 8) as u32))
            | ((value as u32) << ((p - CACHE_CONTROL_ADDR) * 8) as u32)
        &&& !is_ram(p) && !is_scratchpad(p) && !is_io(p) && !is_cache_control(p) ==> n == (Bus {
            open_bus: n.open_bus,
            ..o
        })
        &&& is_io(p) ==> n.ram@ == o.ram@ && n.scratchpad@ == o.scratchpad@
            && n.cache_control == o.cache_control
        &&& is_io(p) ==> io_written8(o, p, value, Bus { open_bus: o.open_bus, ..n })
    }))
}

/// A halfword write of `value` at `addr`.
pub open spec fn half_written(o: Bus, addr: u32, value: u16, n: Bus) -> bool {
    &&& (n.open_bus == (o.open_bus & 0xffff_0000) | value as u32)
    &&& (is_ram(physical_addr_spec(addr)) && addr % 2 == 0 ==> {
        let i = (physical_addr_spec(addr) % 0x20_0000) as int;
        &&& n.ram@ == o.ram@.update(i, value as u8).update(i + 1, (value >> 8u16) as u8)
        &&& n == (Bus { ram: n.ram, open_bus: n.open_bus, ..o })
    })
    &&& (is_io(physical_addr_spec(addr)) ==> io_written16(
        o,
        physical_addr_spec(addr),
        value,
        Bus { open_bus: o.open_bus, ..n },
    ))
    &&& !is_io(physical_addr_spec(addr)) ==> exists|b1: Bus, b2: Bus|
        {
            &&& #[trigger] byte_written(o, addr, value as u8, b1)
            &&& #[trigger] byte_written(b1, ((addr + 1) % 0x1_0000_0000) as u32, (value >> 8u16) as u8, b2)
            &&& n == (Bus { open_bus: (o.open_bus & 0xffff_0000) | value as u32, ..b2 })
        }
}

/// A word write of `value` at `addr`.
pub open spec fn word_written(o: Bus, addr: u32, value: u32, n: Bus) -> bool {
    &&& (n.open_bus == value)
    &&& (physical_addr_spec(addr) == CACHE_CONTROL_ADDR ==> n.cache_control == value)
    &&& (physical_addr_spec(addr) == CACHE_CONTROL_ADDR ==> n == (Bus {
        cache_control: value,
        open_bus: value,
        ..o
    }))
    &&& (is_scratchpad(physical_addr_spec(addr)) && addr % 4 == 0 ==> {
        let i = (physical_addr_spec(addr) - 0x1f80_0000) as int;
        &&& n.scratchpad_word(physical_addr_spec(addr)) == value
        &&& forall|j: int| 0 <= j < SCRATCHPAD_SIZE && (j < i || j >= i + 4)
            ==> #[trigger] n.scratchpad@[j] == o.scratchpad@[j]
        &&& n == (Bus { scratchpad: n.scratchpad, open_bus: value, ..o })
    })
    &&& (is_ram(physical_addr_spec(addr)) && addr % 4 == 0 ==> {
        &&& n.ram_word(physical_addr_spec(addr)) == value
        &&& forall|i: int| 0 <= i < MAIN_RAM_SIZE && (i < (physical_addr_spec(addr) % 0x20_0000) as int || i >= (physical_addr_spec(addr) % 0x20_0000) + 4)
            ==> #[trigger] n.ram@[i] == o.ram@[i]
        &&& n == (Bus { ram: n.ram, open_bus: value, ..o })
    })
    &&& (is_io(physical_addr_spec(addr)) ==> io_written32(
        o,
        physical_addr_spec(addr),
        value,
        Bus { open_bus: o.open_bus, ..n },
    ))
    &&& !is_io(physical_addr_spec(addr)) && physical_addr_spec(addr) != CACHE_CONTROL_ADDR ==> exists|b: Seq<Bus>|
        #![trigger b.len()]
        {
            &&& b.len() == 4
            &&& byte_written(o, addr, value as u8, b[0])
            &&& byte_written(b[0], ((addr + 1) % 0x1_0000_0000) as u32, (value >> 8u32) as u8, b[1])
            &&& byte_written(b[1], ((addr + 2) % 0x1_0000_0000) as u32, (value >> 16u32) as u8, b[2])
            &&& byte_written(b[2], ((addr + 3) % 0x1_0000_0000) as u32, (value >> 24u32) as u8, b[3])
            &&& n == (Bus { open_bus: value, ..b[3] })
        }
}

/// A byte store with the cache isolated.
pub open spec fn isolated_byte_written(o: Bus, addr: u32, value: u8, n: Bus) -> bool {
    &&& (n == (Bus { icache_words: n.icache_words, icache_tags: n.icache_tags, ..o }))
    &&& (o.cache_control & BCC_TAG != 0 ==> isolated_word_written(o, addr, value as u32, n))
    &&& (o.cache_control & BCC_TAG == 0 ==> n.icache_tags == o.icache_tags
        && n.icache_words@ == cache_words_after_byte(
        o.icache_words@,
        o.cache_control,
        addr,
        value,
    ))
}

/// A halfword store with the cache isolated.
pub open spec fn isolated_half_written(o: Bus, addr: u32, value: u16, n: Bus) -> bool {
    &&& (n == (Bus { icache_words: n.icache_words, icache_tags: n.icache_tags, ..o }))
    &&& (o.cache_control & BCC_TAG != 0 ==> isolated_word_written(o, addr, value as u32, n))
    &&& (o.cache_control & BCC_TAG == 0 ==> n.icache_tags == o.icache_tags
        && n.icache_words@ == cache_words_after_byte(
        cache_words_after_byte(o.icache_words@, o.cache_control, addr, value as u8),
        o.cache_control,
        ((addr + 1) % 0x1_0000_0000) as u32,
        (value >> 8u16) as u8,
    ))
}

/// JOY_TX_DATA after a byte is written to it.
pub open spec fn joy_data_written(j: JoySerial, value: u8) -> JoySerial {
    JoySerial { pending_tx: Some(value), transfer_cycles: byte_cycles_spec(j.mode, j.baud), ..j }
}

/// A write to I_STAT (acknowledging the lines written as zero) or I_MASK.
pub open spec fn irq_port_written(o: Bus, phys: u32, value: u16, n: Bus) -> bool {
    &&& n == (Bus { irq: n.irq, ..o })
    &&& phys == 0x1f80_1070 ==> n.irq.spec_status() == o.irq.spec_status() & (value & IRQ_LINES)
        && n.irq.spec_mask() == o.irq.spec_mask()
    &&& phys == 0x1f80_1074 ==> n.irq.spec_mask() == value & IRQ_LINES && n.irq.spec_status()
        == o.irq.spec_status()
}

/// Ports that take a halfword write as a device register.
pub open spec fn is_io16_register(phys: u32) -> bool {
    ||| phys == 0x1f80_1070
    ||| phys == 0x1f80_1074
    ||| 0x1f80_1100 <= phys <= 0x1f80_112f
    ||| 0x1f80_1c00 <= phys <= 0x1f80_1fff
    ||| phys == 0x1f80_1040
    ||| phys == 0x1f80_1048
    ||| phys == 0x1f80_104a
    ||| phys == 0x1f80_104e
}

/// Ports that take a word write as a device register.
pub open spec fn is_io32_register(phys: u32) -> bool {
    ||| phys == 0x1f80_1070
    ||| phys == 0x1f80_1074
    ||| 0x1f80_1080 <= phys <= 0x1f80_10ff
    ||| 0x1f80_1100 <= phys <= 0x1f80_112f
    ||| phys == 0x1f80_1040
    ||| phys == 0x1f80_1048
    ||| phys == 0x1f80_104c
    ||| phys == 0x1f80_1810
    ||| phys == 0x1f80_1814
    ||| phys == 0x1f80_1820
    ||| phys == 0x1f80_1824
}

/// The I/O byte area with a little-endian word stored at `offset`, wrapping at its end.
pub open spec fn io_word_written(io: Seq<u8>, offset: int, value: u32) -> Seq<u8> {
    io.update(offset, value as u8).update((offset + 1) % 0x2000, (value >> 8u32) as u8).update(
        (offset + 2) % 0x2000,
        (value >> 16u32) as u8,
    ).update((offset + 3) % 0x2000, (value >> 24u32) as u8)
}

impl Bus {
    pub open spec fn wf(&self) -> bool {
        &&& self.ram@.len() == MAIN_RAM_SIZE
        &&& self.scratchpad@.len() == SCRATCHPAD_SIZE
        &&& self.bios@.len() == BIOS_SIZE
        &&& self.io@.len() == 0x2000
        &&& self.icache_words@.len() == ICACHE_WORDS
        &&& self.icache_tags@.len() == ICACHE_LINES
        &&& self.gpu.wf()
        &&& self.spu.wf()
        &&& self.cdrom.wf()
        &&& self.joy.wf()
    }

    /// The byte a read of a non-I/O physical address returns.
    pub open spec fn memory_byte(&self, phys: u32) -> u8 {
        if is_ram(phys) {
            self.ram@[(phys % 0x20_0000) as int]
        } else if is_scratchpad(phys) {
            self.scratchpad@[(phys - 0x1f80_0000) as int]
        } else if is_expansion2(phys) {
            0xff
        } else if is_bios(phys) {
            self.bios@[(phys - 0x1fc0_0000) as int]
        } else if is_cache_control(phys) {
            ((self.cache_control >> ((phys - CACHE_CONTROL_ADDR) * 8) as u32) & 0xff) as u8
        } else {
            self.open_bus as u8
        }
    }

    /// The little-endian word of main RAM at a physical address.
    pub open spec fn ram_word(&self, phys: u32) -> u32 {
        let i = (phys % 0x20_0000) as int;
        (self.ram@[i] as u32) | ((self.ram@[i + 1] as u32) << 8u32) | ((self.ram@[i + 2] as u32) << 16u32) | ((
        self.ram@[i + 3] as u32) << 24u32)
    }

    /// The little-endian word of the BIOS ROM at a physical address.
    pub open spec fn bios_word(&self, phys: u32) -> u32 {
        let i = (phys - 0x1fc0_0000) as int;
        (self.bios@[i] as u32) | ((self.bios@[i + 1] as u32) << 8u32) | ((self.bios@[i + 2] as u32) << 16u32) | ((
        self.bios@[i + 3] as u32) << 24u32)
    }

    /// The little-endian word of the scratchpad at a physical address.
    pub open spec fn scratchpad_word(&self, phys: u32) -> u32 {
        let i = (phys - 0x1f80_0000) as int;
        (self.scratchpad@[i] as u32) | ((self.scratchpad@[i + 1] as u32) << 8u32) | ((self.scratchpad@[i + 2] as u32)
            << 16u32) | ((self.scratchpad@[i + 3] as u32) << 24u32)
    }

    /// The RAM half-word at a physical address, little-endian.
    pub open spec fn ram_half(&self, phys: u32) -> u16 {
        let i = (phys % 0x20_0000) as int;
        (self.ram@[i] as u16) | ((self.ram@[i + 1] as u16) << 8u16)
    }

    /// The BIOS image padded with 0xff (or cut) to 512 KiB.
    pub open spec fn bios_image(bytes: Seq<u8>) -> Seq<u8> {
        Seq::new(BIOS_SIZE as nat, |i: int| if i < bytes.len() { bytes[i] } else { 0xffu8 })
    }

    pub fn new(bios: Option<Vec<u8>>) -> (r: Self)
        ensures
            r.wf(),
            r.cache_control == DEFAULT_CACHE_CONTROL,
            r.open_bus == 0,
            forall|i: int| 0 <= i < MAIN_RAM_SIZE ==> #[trigger] r.ram@[i] == 0,
            forall|i: int| 0 <= i < SCRATCHPAD_SIZE ==> #[trigger] r.scratchpad@[i] == 0,
            r.bios@ == Self::bios_image(match bios { Some(b) => b@, None => Seq::empty() }),
            r.gpu.is_reset(),
    {
        let mut bios_rom: Vec<u8> = vec![0xffu8; BIOS_SIZE];
        match bios {
            Some(bytes) => {
                let len = if bytes.len() < BIOS_SIZE { bytes.len() } else { BIOS_SIZE };
                let mut i: usize = 0;
                while i < len
                    invariant
                        len <= bytes@.len(),
                        len <= BIOS_SIZE,
                        bios_rom@.len() == BIOS_SIZE,
                        i <= len,
                        forall|k: int| 0 <= k < i ==> #[trigger] bios_rom@[k] == bytes@[k],
                        forall|k: int| i <= k < BIOS_SIZE ==> #[trigger] bios_rom@[k] == 0xff,
                    decreases len - i,
                {
                    bios_rom.set(i, bytes[i]);
                    i += 1;
                }
                assert(bios_rom@ =~= Self::bios_image(bytes@));
            },
            None => {
                assert(bios_rom@ =~= Self::bios_image(Seq::empty()));
            },
        }
        Bus {
            ram: vec![0u8; MAIN_RAM_SIZE],
            scratchpad: vec![0u8; SCRATCHPAD_SIZE],
            bios: bios_rom,
            io: vec![0u8; 0x2000],
            cache_control: DEFAULT_CACHE_CONTROL,
            icache_words: vec![0u32; ICACHE_WORDS],
            icache_tags: vec![0u32; ICACHE_LINES],
            irq: InterruptController::new(),
            dma: DmaController::new(),
            timers: Timers::new(),
            gpu: Gpu::new(),
            spu: Spu::new(),
            cdrom: Cdrom::new(),
            mdec: Mdec::new(),
            joy: JoySerial::new(),
            open_bus: 0,
        }
    }

    pub fn physical_addr(addr: u32) -> (r: u32)
        ensures
            r == physical_addr_spec(addr),
    {
        if addr <= 0x1fff_ffff {
            addr
        } else if 0x8000_0000 <= addr && addr <= 0x9fff_ffff {
            addr - 0x8000_0000
        } else if 0xa000_0000 <= addr && addr <= 0xbfff_ffff {
            addr - 0xa000_0000
        } else {
            addr
        }
    }

    /// Copies bytes into main RAM at the RAM offset of `addr`; refused when
    /// they would run past the end of the 2 MiB.
    pub fn copy_to_ram(&mut self, addr: u32, bytes: &[u8]) -> (r: Result<(), CopyToRamError>)
        requires
            old(self).wf(),
        ensures
            final(self).wf(),
            ({
                let start = (physical_addr_spec(addr) % 0x20_0000) as int;
                &&& r is Ok <==> start + bytes@.len() <= MAIN_RAM_SIZE
                &&& r is Ok ==> final(self).ram@ == old(self).ram@.subrange(0, start) + bytes@ + old(self).ram@.subrange(
                    start + bytes@.len(),
                    MAIN_RAM_SIZE as int,
                )
                &&& r is Err ==> *final(self) == *old(self)
                &&& *final(self) == (Bus { ram: final(self).ram, ..*old(self) })
            }),
    {
        let phys = Self::physical_addr(addr);
        proof {
            crate::bits::lemma_mask_mod_usize(phys as usize);
        }
        let start = (phys as usize) & (MAIN_RAM_SIZE - 1);
        if bytes.len() > MAIN_RAM_SIZE - start {
            return Err(CopyToRamError::OutOfRange);
        }
        let mut i: usize = 0;
        while i < bytes.len()
            invariant
                self.wf(),
                *self == (Bus { ram: self.ram, ..*old(self) }),
                start + bytes@.len() <= MAIN_RAM_SIZE,
                i <= bytes@.len(),
                forall|k: int| 0 <= k < start ==> #[trigger] self.ram@[k] == old(self).ram@[k],
                forall|k: int| start + i <= k < MAIN_RAM_SIZE ==> #[trigger] self.ram@[k] == old(self).ram@[k],
                forall|k: int| start <= k < start + i ==> #[trigger] self.ram@[k] == bytes@[k - start],
            decreases bytes@.len() - i,
        {
            self.ram.set(start + i, bytes[i]);
            i += 1;
        }
        assert(self.ram@ =~= old(self).ram@.subrange(0, start as int) + bytes@ + old(self).ram@.subrange(
            start + bytes@.len(),
            MAIN_RAM_SIZE as int,
        ));
        Ok(())
    }

    pub fn data_bus_error(&self, addr: u32) -> (r: bool)
        ensures
            r == !data_accessible(physical_addr_spec(addr)),
    {
        !is_data_accessible_phys(Self::physical_addr(addr))
    }

    pub fn cache_control(&self) -> (r: u32)
        ensures
            r == self.cache_control,
    {
        self.cache_control
    }

    /// A byte read.  Memory regions answer from their storage, expansion
    /// region 2 reads 0xff, the cache control register byte by byte, I/O goes
    /// to the devices, and anything else returns the last value on the bus.
    pub fn read8(&mut self, addr: u32) -> (r: u8)
        requires
            old(self).wf(),
        ensures
            final(self).wf(),
            byte_read(*old(self), addr, *final(self), r),
    {
        let phys = Self::physical_addr(addr);
        proof {
            crate::bits::lemma_mask_mod_usize(phys as usize);
            crate::bits::lemma_mask_mod_usize((phys - 0x1f80_0000) as usize);
            crate::bits::lemma_mask_mod_usize((phys - 0x1fc0_0000) as usize);
        }
        let value: u8 = if phys <= 0x007f_ffff {
            self.ram[(phys as usize) & (MAIN_RAM_SIZE - 1)]
        } else if 0x1f80_0000 <= phys && phys <= 0x1f80_03ff {
            self.scratchpad[(phys as usize - 0x1f80_0000) & (SCRATCHPAD_SIZE - 1)]
        } else if 0x1f80_1000 <= phys && phys <= 0x1f80_1fff {
            self.read_io8(phys)
        } else if 0x1f80_2000 <= phys && phys <= 0x1f80_3fff {
            0xff
        } else if 0x1fc0_0000 <= phys && phys <= 0x1fc7_ffff {
            self.bios[(phys as usize - 0x1fc0_0000) & (BIOS_SIZE - 1)]
        } else if CACHE_CONTROL_ADDR <= phys && phys <= 0xfffe_0133 {
            ((self.cache_control >> ((phys - CACHE_CONTROL_ADDR) * 8)) & 0xff) as u8
        } else {
            self.open_bus as u8
        };
        self.open_bus = (self.open_bus & 0xffff_ff00) | value as u32;
        value
    }

    /// A halfword read: I/O ports answer 16 bits at once, other regions byte by byte.
    pub fn read16(&mut self, addr: u32) -> (r: u16)
        requires
            old(self).wf(),
        ensures
            final(self).wf(),
            half_read(*old(self), addr, *final(self), r),
    {
        let phys = Self::physical_addr(addr);
        let upper = self.open_bus & 0xffff_0000;
        let value: u16 = if 0x1f80_1000 <= phys && phys <= 0x1f80_1fff {
            self.read_io16(phys)
        } else {
            proof {
                if is_ram(phys) && addr % 2 == 0 {
                    lemma_ram_half_bytes(addr, phys);
                }
            }
            let lo8 = self.read8(addr);
            let ghost b1 = *self;
            let hi8 = self.read8(addr.wrapping_add(1));
            let ghost b2 = *self;
            proof {
                assert(byte_read(*old(self), addr, b1, lo8));
                assert(byte_read(b1, ((addr + 1) % 0x1_0000_0000) as u32, b2, hi8));
            }
            let lo = lo8 as u16;
            let hi = hi8 as u16;
            lo | (hi << 8u16)
        };
        self.open_bus = upper | value as u32;
        value
    }

    /// A word read: the cache control register and I/O ports answer 32
    /// bits at once, other regions byte by byte.  An aligned word of main
    /// RAM reads back as its four bytes, little-endian.
    pub fn read32(&mut self, addr: u32) -> (r: u32)
        requires
            old(self).wf(),
        ensures
            final(self).wf(),
            word_read(*old(self), addr, *final(self), r),
    {
        let phys = Self::physical_addr(addr);
        let value = if phys == CACHE_CONTROL_ADDR {
            self.cache_control
        } else if 0x1f80_1000 <= phys && phys <= 0x1f80_1fff {
            self.read_io32(phys)
        } else {
            let x0 = self.read8(addr);
            let ghost s0 = *self;
            let x1 = self.read8(addr.wrapping_add(1));
            let ghost s1 = *self;
            let x2 = self.read8(addr.wrapping_add(2));
            let ghost s2 = *self;
            let x3 = self.read8(addr.wrapping_add(3));
            let ghost s3 = *self;
            proof {
                let bs = seq![s0, s1, s2, s3];
                let xs = seq![x0, x1, x2, x3];
                assert(bs.len() == 4 && xs.len() == 4);
                assert(byte_read(*old(self), addr, bs[0], xs[0]));
                assert(byte_read(bs[0], ((addr + 1) % 0x1_0000_0000) as u32, bs[1], xs[1]));
                assert(byte_read(bs[1], ((addr + 2) % 0x1_0000_0000) as u32, bs[2], xs[2]));
                assert(byte_read(bs[2], ((addr + 3) % 0x1_0000_0000) as u32, bs[3], xs[3]));
            }
            let b0 = x0 as u32;
            let b1 = x1 as u32;
            let b2 = x2 as u32;
            let b3 = x3 as u32;
            proof {
                if is_ram(phys) && addr % 4 == 0 {
                    lemma_ram_word_bytes(addr, phys);
                }
                if is_bios(phys) && addr % 4 == 0 {
                    lemma_bios_word_bytes(addr, phys);
                }
                if is_scratchpad(phys) && addr % 4 == 0 {
                    lemma_scratchpad_word_bytes(addr, phys);
                }
            }
            b0 | (b1 << 8u32) | (b2 << 16u32) | (b3 << 24u32)
        };
        self.open_bus = value;
        value
    }

    /// The byte a side-effect-free read sees: memory as a read would, the
    /// raw I/O area, and the matching byte of the last bus value elsewhere.
    pub open spec fn peek_byte(&self, addr: u32) -> u8 {
        let p = physical_addr_spec(addr);
        if is_io(p) {
            self.io@[(p - 0x1f80_1000) as int]
        } else if is_ram(p) || is_scratchpad(p) || is_expansion2(p) || is_bios(p) || is_cache_control(p) {
            self.memory_byte(p)
        } else {
            ((self.open_bus >> ((addr % 4) * 8) as u32) & 0xff) as u8
        }
    }

    /// The word a side-effect-free read sees, little-endian from four bytes.
    pub open spec fn peek_word(&self, addr: u32) -> u32 {
        (self.peek_byte(addr) as u32) | ((self.peek_byte(((addr + 1) % 0x1_0000_0000) as u32) as u32) << 8u32) | ((
        self.peek_byte(((addr + 2) % 0x1_0000_0000) as u32) as u32) << 16u32) | ((self.peek_byte(
            ((addr + 3) % 0x1_0000_0000) as u32,
        ) as u32) << 24u32)
    }

    /// Reads a word without side effects (no device reads, no bus latch).
    #[verifier::rlimit(80)]
    pub fn peek32(&self, addr: u32) -> (r: u32)
        requires
            self.wf(),
        ensures
            r == self.peek_word(addr),
            is_ram(physical_addr_spec(addr)) && addr % 4 == 0 ==> r == self.ram_word(physical_addr_spec(addr)),
    {
        let b0 = self.peek8(addr) as u32;
        let b1 = self.peek8(addr.wrapping_add(1)) as u32;
        let b2 = self.peek8(addr.wrapping_add(2)) as u32;
        let b3 = self.peek8(addr.wrapping_add(3)) as u32;
        proof {
            if is_ram(physical_addr_spec(addr)) && addr % 4 == 0 {
                lemma_ram_word_bytes(addr, physical_addr_spec(addr));
            }
        }
        b0 | (b1 << 8u32) | (b2 << 16u32) | (b3 << 24u32)
    }

    fn peek8(&self, addr: u32) -> (r: u8)
        requires
            self.wf(),
        ensures
            r == self.peek_byte(addr),
    {
        let phys = Self::physical_addr(addr);
        proof {
            crate::bits::lemma_mask_mod_usize(phys as usize);
            crate::bits::lemma_mask_mod_usize((phys - 0x1f80_0000) as usize);
            crate::bits::lemma_mask_mod_usize((phys - 0x1f80_1000) as usize);
            crate::bits::lemma_mask_mod_usize((phys - 0x1fc0_0000) as usize);
            crate::bits::lemma_mask_mod_u32(addr);
        }
        if phys <= 0x007f_ffff {
            self.ram[(phys as usize) & (MAIN_RAM_SIZE - 1)]
        } else if 0x1f80_0000 <= phys && phys <= 0x1f80_03ff {
            self.scratchpad[(phys as usize - 0x1f80_0000) & (SCRATCHPAD_SIZE - 1)]
        } else if 0x1f80_1000 <= phys && phys <= 0x1f80_1fff {
            self.io[(phys as usize - 0x1f80_1000) & 0x1fff]
        } else if 0x1f80_2000 <= phys && phys <= 0x1f80_3fff {
            0xff
        } else if 0x1fc0_0000 <= phys && phys <= 0x1fc7_ffff {
            self.bios[(phys as usize - 0x1fc0_0000) & (BIOS_SIZE - 1)]
        } else if CACHE_CONTROL_ADDR <= phys && phys <= 0xfffe_0133 {
            ((self.cache_control >> ((phys - CACHE_CONTROL_ADDR) * 8)) & 0xff) as u8
        } else {
            ((self.open_bus >> ((addr & 3) * 8)) & 0xff) as u8
        }
    }

    /// A byte write to RAM, the scratchpad, an I/O port or a byte of the
    /// cache control register; writes elsewhere are dropped.
    pub fn write8(&mut self, addr: u32, value: u8)
        requires
            old(self).wf(),
        ensures
            final(self).wf(),
            byte_written(*old(self), addr, value, *final(self)),
    {
        let phys = Self::physical_addr(addr);
        proof {
            crate::bits::lemma_mask_mod_usize(phys as usize);
            crate::bits::lemma_mask_mod_usize((phys - 0x1f80_0000) as usize);
        }
        if phys <= 0x007f_ffff {
            self.ram.set((phys as usize) & (MAIN_RAM_SIZE - 1), value);
        } else if 0x1f80_0000 <= phys && phys <= 0x1f80_03ff {
            self.scratchpad.set((phys as usize - 0x1f80_0000) & (SCRATCHPAD_SIZE - 1), value);
        } else if 0x1f80_1000 <= phys && phys <= 0x1f80_1fff {
            self.write_io8(phys, value);
        } else if CACHE_CONTROL_ADDR <= phys && phys <= 0xfffe_0133 {
            let shift = (phys - CACHE_CONTROL_ADDR) * 8;
            self.cache_control = (self.cache_control & !(0xffu32 << shift)) | ((value as u32) << shift);
        }
        self.open_bus = (self.open_bus & 0xffff_ff00) | value as u32;
    }

    /// A halfword write: I/O ports take 16 bits at once, other regions byte by byte.
    pub fn write16(&mut self, addr: u32, value: u16)
        requires
            old(self).wf(),
        ensures
            final(self).wf(),
            half_written(*old(self), addr, value, *final(self)),
    {
        let phys = Self::physical_addr(addr);
        let upper = self.open_bus & 0xffff_0000;
        if CACHE_CONTROL_ADDR <= phys && phys <= 0xfffe_0132 {
            self.write8(addr, value as u8);
            self.write8(addr.wrapping_add(1), (value >> 8u16) as u8);
        } else if 0x1f80_1000 <= phys && phys <= 0x1f80_1fff {
            self.write_io16(phys, value);
        } else {
            proof {
                if is_ram(phys) && addr % 2 == 0 {
                    lemma_ram_half_bytes(addr, phys);
                }
            }
            self.write8(addr, value as u8);
            let ghost b1 = *self;
            self.write8(addr.wrapping_add(1), (value >> 8u16) as u8);
            proof {
                assert(byte_written(*old(self), addr, value as u8, b1));
                assert(byte_written(b1, ((addr + 1) % 0x1_0000_0000) as u32, (value >> 8u16) as u8, *self));
            }
        }
        self.open_bus = upper | value as u32;
    }

    /// A word write: the cache control register and I/O ports take 32 bits
    /// at once, other regions byte by byte.  An aligned word of main RAM
    /// then reads back as the value written.
    pub fn write32(&mut self, addr: u32, value: u32)
        requires
            old(self).wf(),
        ensures
            final(self).wf(),
            word_written(*old(self), addr, value, *final(self)),
    {
        let phys = Self::physical_addr(addr);
        if phys == CACHE_CONTROL_ADDR {
            self.cache_control = value;
        } else if 0x1f80_1000 <= phys && phys <= 0x1f80_1fff {
            self.write_io32(phys, value);
        } else {
            proof {
                if is_ram(phys) && addr % 4 == 0 {
                    lemma_ram_word_bytes(addr, phys);
                }
                if is_scratchpad(phys) && addr % 4 == 0 {
                    lemma_scratchpad_word_bytes(addr, phys);
                }
            }
            self.write8(addr, value as u8);
            let ghost s0 = *self;
            self.write8(addr.wrapping_add(1), (value >> 8u32) as u8);
            let ghost s1 = *self;
            self.write8(addr.wrapping_add(2), (value >> 16u32) as u8);
            let ghost s2 = *self;
            self.write8(addr.wrapping_add(3), (value >> 24u32) as u8);
            proof {
                let bs = seq![s0, s1, s2, *self];
                assert(bs.len() == 4);
                assert(byte_written(*old(self), addr, value as u8, bs[0]));
                assert(byte_written(bs[0], ((addr + 1) % 0x1_0000_0000) as u32, (value >> 8u32) as u8, bs[1]));
                assert(byte_written(bs[1], ((addr + 2) % 0x1_0000_0000) as u32, (value >> 16u32) as u8, bs[2]));
                assert(byte_written(bs[2], ((addr + 3) % 0x1_0000_0000) as u32, (value >> 24u32) as u8, bs[3]));
            }
            proof {
                if (is_ram(phys) || is_scratchpad(phys)) && addr % 4 == 0 {
                    lemma_word_of_bytes(value);
                }
            }
        }
        self.open_bus = value;
    }

    /// Advances the timers, the SPU (which produces a stereo sample every
    /// 768 cycles) and the controller port, raising the SPU and controller
    /// interrupts on their edges and the CD-ROM interrupt while the drive has
    /// one pending.
    pub fn tick(&mut self, cycles: u32)
        requires
            old(self).wf(),
        ensures
            final(self).wf(),
            bus_ticked(*old(self), cycles, *final(self)),
    {
        self.timers.tick(cycles, &mut self.irq);
        let ghost timer_status = self.irq.spec_status();
        let spu_edge = self.spu.tick(cycles);
        if spu_edge {
            self.irq.request(IRQ_SPU);
        }
        let joy_edge = self.joy.tick(cycles);
        if joy_edge {
            self.irq.request(IRQ_JOY);
        }
        if self.cdrom.interrupt_pending() {
            self.irq.request(IRQ_CDROM);
        }
        proof {
            assert(timers_ticked(old(self).timers, old(self).irq.spec_status(), cycles, self.timers, timer_status));
            assert(spu_ticked(old(self).spu, cycles, self.spu, spu_edge));
            assert(joy_ticked(old(self).joy, cycles, self.joy, joy_edge));
        }
    }
}

/// The two bytes of an aligned RAM half-word lie at consecutive RAM offsets.
proof fn lemma_ram_half_bytes(addr: u32, phys: u32)
    requires
        phys == physical_addr_spec(addr),
        is_ram(phys),
        addr % 2 == 0,
    ensures
        physical_addr_spec((addr + 1) as u32) == phys + 1,
        is_ram((phys + 1) as u32),
        !is_io(phys) && !is_io((phys + 1) as u32),
        (phys + 1) % 0x20_0000 == phys % 0x20_0000 + 1,
        addr + 1 <= u32::MAX,
{
}

/// The four bytes of an aligned RAM word lie at consecutive RAM offsets.
proof fn lemma_ram_word_bytes(addr: u32, phys: u32)
    requires
        phys == physical_addr_spec(addr),
        is_ram(phys),
        addr % 4 == 0,
    ensures
        physical_addr_spec((addr + 1) as u32) == phys + 1,
        physical_addr_spec((addr + 2) as u32) == phys + 2,
        physical_addr_spec((addr + 3) as u32) == phys + 3,
        is_ram((phys + 1) as u32) && is_ram((phys + 2) as u32) && is_ram((phys + 3) as u32),
        !is_io(phys) && !is_io((phys + 1) as u32) && !is_io((phys + 2) as u32) && !is_io((phys + 3) as u32),
        (phys + 1) % 0x20_0000 == phys % 0x20_0000 + 1,
        (phys + 2) % 0x20_0000 == phys % 0x20_0000 + 2,
        (phys + 3) % 0x20_0000 == phys % 0x20_0000 + 3,
        addr + 3 <= u32::MAX,
{
}

/// The address of word `slot` of the cache line that holds `addr`.
pub open spec fn icache_fill_addr(addr: u32, slot: int) -> u32 {
    ((addr & !0x0fu32) + 4 * slot) as u32
}

/// The valid bits of a cache line whose bits were `base` once slots
/// `first..=last` are loaded.
pub open spec fn icache_valid_after(base: u32, first: int, last: int) -> u32
    decreases last - first + 1,
{
    if last < first {
        base
    } else {
        icache_valid_after(base, first, last - 1) | (1u32 << (last as u32))
    }
}

/// Word `slot` of the line that holds `addr` is aligned, lies in the same
/// region as `addr`, and has cache slot `slot` of that line.
#[verifier::rlimit(50)]
proof fn lemma_icache_fill_slot(addr: u32, slot: int)
    requires
        0 <= slot <= 3,
    ensures
        icache_fill_addr(addr, slot) % 4 == 0,
        icache_fill_addr(addr, slot) == addr - addr % 16 + 4 * slot,
        icache_word_index_spec(icache_fill_addr(addr, slot)) == icache_line_index_spec(physical_addr_spec(addr)) * 4
            + slot,
        is_ram(physical_addr_spec(addr)) ==> is_ram(physical_addr_spec(icache_fill_addr(addr, slot))),
        is_bios(physical_addr_spec(addr)) ==> is_bios(physical_addr_spec(icache_fill_addr(addr, slot))),
{
    assert((addr & !0x0fu32) + addr % 16 == addr) by {
        crate::bits::lemma_gpu_fields(addr);
    }
    let phys = physical_addr_spec(addr);
    lemma_line_slot(addr as int, addr - phys, slot);
    let b: int = addr as int / 16;
    vstd::arithmetic::div_mod::lemma_fundamental_div_mod(addr as int, 16);
    let f: int = 16 * b + 4 * slot;
    assert(icache_fill_addr(addr, slot) == f);
    assert(addr <= 0x1fff_ffff ==> f <= 0x1fff_ffff);
    assert(0x8000_0000 <= addr <= 0x9fff_ffff ==> 0x8000_0000 <= f <= 0x9fff_ffff);
    assert(0xa000_0000 <= addr <= 0xbfff_ffff ==> 0xa000_0000 <= f <= 0xbfff_ffff);
}

/// Slot arithmetic of a cache line, for an address and its image `a - d`
/// under a shift by a multiple of 4 KiB.
proof fn lemma_line_slot(a: int, d: int, slot: int)
    requires
        0 <= a,
        0 <= a - d,
        d % 0x1000 == 0,
        0 <= slot <= 3,
    ensures
        (a - d) % 16 == a % 16,
        (a - a % 16 + 4 * slot) % 4 == 0,
        ((a - a % 16 + 4 * slot) % 0x1000) / 4 == (((a - d) % 0x1000) / 16) * 4 + slot,
{
    let q: int = a / 0x1000;
    let m: int = a % 0x1000;
    let k: int = m / 16;
    let r: int = m % 16;
    let e: int = d / 0x1000;
    vstd::arithmetic::div_mod::lemma_fundamental_div_mod(a, 0x1000);
    vstd::arithmetic::div_mod::lemma_fundamental_div_mod(m, 16);
    vstd::arithmetic::div_mod::lemma_fundamental_div_mod(d, 0x1000);
    assert(a == (q * 256 + k) * 16 + r) by (nonlinear_arith)
        requires
            a == 0x1000 * q + m,
            m == 16 * k + r,
    ;
    vstd::arithmetic::div_mod::lemma_fundamental_div_mod_converse(a, 16, q * 256 + k, r);
    assert(a - d == ((q - e) * 256 + k) * 16 + r) by (nonlinear_arith)
        requires
            a == (q * 256 + k) * 16 + r,
            d == 0x1000 * e,
    ;
    vstd::arithmetic::div_mod::lemma_fundamental_div_mod_converse(a - d, 16, (q - e) * 256 + k, r);
    assert(a - d == (q - e) * 0x1000 + m) by (nonlinear_arith)
        requires
            a == 0x1000 * q + m,
            d == 0x1000 * e,
    ;
    vstd::arithmetic::div_mod::lemma_fundamental_div_mod_converse(a - d, 0x1000, q - e, m);
    assert(a - r + 4 * slot == q * 0x1000 + (k * 16 + 4 * slot));
    vstd::arithmetic::div_mod::lemma_fundamental_div_mod_converse(a - r + 4 * slot, 0x1000, q, k * 16 + 4 * slot);
    vstd::arithmetic::div_mod::lemma_fundamental_div_mod_converse(k * 16 + 4 * slot, 4, k * 4 + slot, 0);
    assert(a - r + 4 * slot == (q * 1024 + k * 4 + slot) * 4);
    vstd::arithmetic::div_mod::lemma_fundamental_div_mod_converse(a - r + 4 * slot, 4, q * 1024 + k * 4 + slot, 0);
    vstd::arithmetic::div_mod::lemma_fundamental_div_mod_converse(m, 16, k, r);
}

/// The four bytes of an aligned scratchpad word lie at consecutive offsets.
proof fn lemma_scratchpad_word_bytes(addr: u32, phys: u32)
    requires
        phys == physical_addr_spec(addr),
        is_scratchpad(phys),
        addr % 4 == 0,
    ensures
        physical_addr_spec((addr + 1) as u32) == phys + 1,
        physical_addr_spec((addr + 2) as u32) == phys + 2,
        physical_addr_spec((addr + 3) as u32) == phys + 3,
        is_scratchpad((phys + 1) as u32) && is_scratchpad((phys + 2) as u32) && is_scratchpad((phys + 3) as u32),
        !is_io(phys) && !is_io((phys + 1) as u32) && !is_io((phys + 2) as u32) && !is_io((phys + 3) as u32),
        !is_ram(phys) && !is_ram((phys + 1) as u32) && !is_ram((phys + 2) as u32) && !is_ram((phys + 3) as u32),
        !is_cache_control(phys) && !is_cache_control((phys + 1) as u32) && !is_cache_control((phys + 2) as u32)
            && !is_cache_control((phys + 3) as u32),
        addr + 3 <= u32::MAX,
{
}

/// The four bytes of an aligned BIOS word lie at consecutive ROM offsets.
proof fn lemma_bios_word_bytes(addr: u32, phys: u32)
    requires
        phys == physical_addr_spec(addr),
        is_bios(phys),
        addr % 4 == 0,
    ensures
        physical_addr_spec((addr + 1) as u32) == phys + 1,
        physical_addr_spec((addr + 2) as u32) == phys + 2,
        physical_addr_spec((addr + 3) as u32) == phys + 3,
        is_bios((phys + 1) as u32) && is_bios((phys + 2) as u32) && is_bios((phys + 3) as u32),
        !is_io(phys) && !is_io((phys + 1) as u32) && !is_io((phys + 2) as u32) && !is_io((phys + 3) as u32),
        !is_ram(phys) && !is_ram((phys + 1) as u32) && !is_ram((phys + 2) as u32) && !is_ram((phys + 3) as u32),
        addr + 3 <= u32::MAX,
{
}

/// A word split into its four bytes and put back together is unchanged.
pub proof fn lemma_word_of_bytes(value: u32)
    ensures
        ((value as u8) as u32) | (((value >> 8u32) as u8 as u32) << 8u32) | (((value >> 16u32) as u8 as u32) << 16u32) | ((
        (value >> 24u32) as u8 as u32) << 24u32) == value,
{
    assert(((value as u8) as u32) | (((value >> 8u32) as u8 as u32) << 8u32) | (((value >> 16u32) as u8 as u32) << 16u32)
        | (((value >> 24u32) as u8 as u32) << 24u32) == value) by (bit_vector);
}

pub fn is_instruction_accessible_phys(phys: u32) -> (r: bool)
    ensures
        r == instruction_accessible(phys),
{
    phys <= 0x007f_ffff || (0x1f00_0000 <= phys && phys <= 0x1f7f_ffff) || (0x1fa0_0000 <= phys && phys <= 0x1fbf_ffff) || (
    0x1fc0_0000 <= phys && phys <= 0x1fc7_ffff)
}

pub fn is_data_accessible_phys(phys: u32) -> (r: bool)
    ensures
        r == data_accessible(phys),
{
    phys <= 0x007f_ffff || (0x1f00_0000 <= phys && phys <= 0x1f7f_ffff) || (0x1f80_0000 <= phys && phys <= 0x1f80_03ff)
        || (0x1f80_1000 <= phys && phys <= 0x1f80_3fff) || (0x1fa0_0000 <= phys && phys <= 0x1fbf_ffff) || (0x1fc0_0000
        <= phys && phys <= 0x1fc7_ffff) || (CACHE_CONTROL_ADDR <= phys && phys <= 0xfffe_0133)
}

pub fn icache_word_index(addr: u32) -> (r: usize)
    ensures
        r == icache_word_index_spec(addr),
        r < ICACHE_WORDS,
{
    proof {
        crate::bits::lemma_mask_mod_usize(addr as usize);
    }
    ((addr as usize) & 0x0fff) / 4
}

pub fn icache_line_index(addr: u32) -> (r: usize)
    ensures
        r == icache_line_index_spec(addr),
        r < ICACHE_LINES,
{
    proof {
        crate::bits::lemma_mask_mod_usize(addr as usize);
    }
    ((addr as usize) & 0x0fff) / 16
}

} // verus!

verus! {

/// What the isolated data cache returns for a word read: nothing unless
/// isolated, the tag (with the match bit) in tag-test mode, else the word.
pub open spec fn isolated_read_spec(bus: Bus, addr: u32) -> u32 {
    if bus.cache_control & BCC_IS1 == 0 {
        0
    } else if bus.cache_control & BCC_TAG != 0 {
        let tag = bus.icache_tags@[icache_line_index_spec(addr)];
        let match_bit: u32 = if tag & 0xffff_f000 == addr & 0xffff_f000 { 0x10 } else { 0 };
        (bus.icache_words@[icache_word_index_spec(addr)] & !0x1fu32) | (tag & 0x0f) | match_bit
    } else {
        bus.icache_words@[icache_word_index_spec(addr)]
    }
}

/// The byte at `addr` that a read from the isolated cache returns.
pub open spec fn isolated_read8_spec(bus: Bus, addr: u32) -> u8 {
    ((isolated_read_spec(bus, addr & !3u32) >> ((addr & 3) * 8) as u32) & 0xff) as u8
}

/// What a word write does to the cache while isolated, from `o` to `n`:
/// nothing unless isolated, the line's tag (with valid bits) in tag-test
/// mode, else the word slot.
pub open spec fn isolated_word_written(o: Bus, addr: u32, value: u32, n: Bus) -> bool {
    if o.cache_control & BCC_IS1 == 0 {
        n == o
    } else if o.cache_control & BCC_TAG != 0 {
        &&& n == Bus { icache_tags: n.icache_tags, ..o }
        &&& n.icache_tags@ == o.icache_tags@.update(icache_line_index_spec(addr), (value & 0x0f) | (addr & 0xffff_f000))
    } else {
        &&& n == Bus { icache_words: n.icache_words, ..o }
        &&& n.icache_words@ == o.icache_words@.update(icache_word_index_spec(addr), value)
    }
}

/// The cached words after a byte write outside tag-test mode: the byte
/// replaced within its word when the cache is isolated.
pub open spec fn cache_words_after_byte(words: Seq<u32>, cache_control: u32, addr: u32, value: u8) -> Seq<u32> {
    if cache_control & BCC_IS1 == 0 {
        words
    } else {
        let i = icache_word_index_spec(addr & !3u32);
        let shift = ((addr & 3) * 8) as u32;
        words.update(i, (words[i] & !(0xffu32 << shift)) | ((value as u32) << shift))
    }
}

impl Bus {
    pub fn isolated_cache_read32(&self, addr: u32) -> (r: u32)
        requires
            self.wf(),
        ensures
            r == isolated_read_spec(*self, addr),
    {
        if (self.cache_control & BCC_IS1) == 0 {
            return 0;
        }
        let word_index = icache_word_index(addr);
        if (self.cache_control & BCC_TAG) != 0 {
            let tag = self.icache_tags[icache_line_index(addr)];
            let match_bit: u32 = if (tag & 0xffff_f000) == (addr & 0xffff_f000) {
                0x10
            } else {
                0
            };
            (self.icache_words[word_index] & !0x1fu32) | (tag & 0x0f) | match_bit
        } else {
            self.icache_words[word_index]
        }
    }

    pub fn isolated_cache_read8(&self, addr: u32) -> (r: u8)
        requires
            self.wf(),
        ensures
            r == isolated_read8_spec(*self, addr),
    {
        proof {
            crate::bits::lemma_mask_mod_u32(addr);
        }
        ((self.isolated_cache_read32(addr & !3u32) >> ((addr & 3) * 8)) & 0xff) as u8
    }

    pub fn isolated_cache_read16(&self, addr: u32) -> (r: u16)
        requires
            self.wf(),
        ensures
            r == (isolated_read8_spec(*self, addr) as u16) | ((isolated_read8_spec(
                *self,
                ((addr + 1) % 0x1_0000_0000) as u32,
            ) as u16) << 8u16),
    {
        let lo = self.isolated_cache_read8(addr) as u16;
        let hi = self.isolated_cache_read8(addr.wrapping_add(1)) as u16;
        lo | (hi << 8u16)
    }

    /// While isolated, a word write goes to the cache: the tag (with valid
    /// bits) in tag-test mode, else the word slot.  Main RAM is untouched.
    pub fn isolated_cache_write32(&mut self, addr: u32, value: u32)
        requires
            old(self).wf(),
        ensures
            final(self).wf(),
            isolated_word_written(*old(self), addr, value, *final(self)),
    {
        if (self.cache_control & BCC_IS1) == 0 {
            return;
        }
        if (self.cache_control & BCC_TAG) != 0 {
            let line = icache_line_index(addr);
            self.icache_tags.set(line, (value & 0x0f) | (addr & 0xffff_f000));
        } else {
            let index = icache_word_index(addr);
            self.icache_words.set(index, value);
        }
    }

    /// A byte write while isolated: in tag-test mode a word write of the
    /// byte, else the byte replaced within its cached word.
    pub fn isolated_cache_write8(&mut self, addr: u32, value: u8)
        requires
            old(self).wf(),
        ensures
            final(self).wf(),
            isolated_byte_written(*old(self), addr, value, *final(self)),
    {
        if (self.cache_control & BCC_TAG) != 0 {
            self.isolated_cache_write32(addr, value as u32);
            return;
        }
        proof {
            crate::bits::lemma_mask_mod_u32(addr);
        }
        let aligned = addr & !3u32;
        let shift = (addr & 3) * 8;
        let word = (self.isolated_cache_read32(aligned) & !(0xffu32 << shift)) | ((value as u32) << shift);
        self.isolated_cache_write32(aligned, word);
    }

    /// A half-word write while isolated: in tag-test mode a word write of the
    /// value, else its two bytes written in turn.
    pub fn isolated_cache_write16(&mut self, addr: u32, value: u16)
        requires
            old(self).wf(),
        ensures
            final(self).wf(),
            isolated_half_written(*old(self), addr, value, *final(self)),
    {
        if (self.cache_control & BCC_TAG) != 0 {
            self.isolated_cache_write32(addr, value as u32);
            return;
        }
        self.isolated_cache_write8(addr, value as u8);
        self.isolated_cache_write8(addr.wrapping_add(1), (value >> 8u16) as u8);
    }

    fn instruction_cache_enabled(&self, addr: u32) -> (r: bool)
        ensures
            r == (self.cache_control & BCC_IS1 != 0 && (addr <= 0x1fff_ffff || (0x8000_0000 <= addr <= 0x9fff_ffff))),
    {
        (self.cache_control & BCC_IS1) != 0 && (addr <= 0x1fff_ffff || (0x8000_0000 <= addr && addr <= 0x9fff_ffff))
    }

    pub fn instruction_bus_error(&self, addr: u32) -> (r: bool)
        ensures
            r == (addr >= 0xc000_0000 || !instruction_accessible(physical_addr_spec(addr))),
    {
        addr >= 0xc000_0000 || !is_instruction_accessible_phys(Self::physical_addr(addr))
    }

    /// An instruction fetch: refused outside the fetchable regions, read
    /// directly when the instruction cache is off or the address is
    /// uncached, else served from the cache after filling a missing line.
    pub fn fetch32(&mut self, addr: u32) -> (r: Result<u32, FetchError>)
        requires
            old(self).wf(),
        ensures
            final(self).wf(),
            r is Err <==> (addr >= 0xc000_0000 || !instruction_accessible(physical_addr_spec(addr))),
            r is Err ==> *final(self) == *old(self),
            final(self).ram@ == old(self).ram@,
            fetched(*old(self), addr, *final(self), r),
    {
        if self.instruction_bus_error(addr) {
            return Err(FetchError::BusError);
        }
        if !self.instruction_cache_enabled(addr) {
            return Ok(self.read32(addr));
        }
        let phys = Self::physical_addr(addr);
        let line = icache_line_index(phys);
        let word = ((phys >> 2u32) & 3) as usize;
        let tag = self.icache_tags[line];
        let tag_addr = phys & 0xffff_f000;
        let valid_bit = 1u32 << (word as u32);
        if (tag & 0xffff_f000) != tag_addr || (tag & valid_bit) == 0 {
            self.fill_icache_line(addr);
        }
        Ok(self.icache_words[icache_word_index(phys)])
    }

    /// Loads the rest of a cache line from the requested word (two words
    /// from slot 0 when the block size is one, else up to slot 3) and marks
    /// the loaded slots valid.
    fn fill_icache_line(&mut self, addr: u32)
        requires
            old(self).wf(),
        ensures
            final(self).wf(),
            icache_filled(*old(self), addr, *final(self)),
    {
        let phys = Self::physical_addr(addr);
        let line = icache_line_index(phys);
        let word = ((phys >> 2u32) & 3) as usize;
        let tag_addr = phys & 0xffff_f000;
        let old_valid = if (self.icache_tags[line] & 0xffff_f000) == tag_addr {
            self.icache_tags[line] & 0x0f
        } else {
            0
        };
        let last_word: usize = if word == 0 && (self.cache_control & BCC_IBLKSZ_MASK) == 0 {
            1
        } else {
            3
        };
        let line_base_addr = addr & !0x0fu32;
        let mut valid = old_valid;
        let mut slot = word;
        proof {
            crate::bits::lemma_gpu_fields(phys);
            crate::bits::lemma_gpu_fields(addr);
        }
        while slot <= last_word
            invariant
                self.wf(),
                self.ram@ == old(self).ram@,
                self.bios == old(self).bios,
                self.icache_tags == old(self).icache_tags,
                phys == physical_addr_spec(addr),
                line == icache_line_index_spec(phys),
                line < ICACHE_LINES,
                word as int == (phys / 4) % 4,
                last_word <= 3,
                word <= slot <= last_word + 1,
                line_base_addr == addr & !0x0fu32,
                line_base_addr + addr % 16 == addr,
                valid == icache_valid_after(old_valid, word as int, slot - 1),
                forall|i: int|
                    0 <= i < ICACHE_WORDS && !(line * 4 + word <= i < line * 4 + slot) ==> self.icache_words@[i]
                        == old(self).icache_words@[i],
                forall|s: int|
                    word <= s < slot && is_ram(phys) ==> #[trigger] self.icache_words@[line * 4 + s]
                        == old(self).ram_word(physical_addr_spec(icache_fill_addr(addr, s))),
                forall|s: int|
                    word <= s < slot && is_bios(phys) ==> #[trigger] self.icache_words@[line * 4 + s]
                        == old(self).bios_word(physical_addr_spec(icache_fill_addr(addr, s))),
            decreases last_word + 1 - slot,
        {
            proof {
                lemma_icache_fill_slot(addr, slot as int);
            }
            let fetch_addr = line_base_addr.wrapping_add((slot as u32) * 4);
            assert(fetch_addr == icache_fill_addr(addr, slot as int));
            let value = self.read32(fetch_addr);
            let index = icache_word_index(fetch_addr);
            self.icache_words.set(index, value);
            valid = valid | (1u32 << (slot as u32));
            slot += 1;
        }
        self.icache_tags.set(line, tag_addr | valid);
    }

    fn read_io8(&mut self, phys: u32) -> (r: u8)
        requires
            old(self).wf(),
            0x1f80_1000 <= phys <= 0x1f80_1fff,
        ensures
            final(self).wf(),
            io_read8(*old(self), phys, *final(self), r),
    {
        if 0x1f80_1800 <= phys && phys <= 0x1f80_1803 {
            return self.cdrom.read8(phys - 0x1f80_1800);
        }
        if 0x1f80_1040 <= phys && phys <= 0x1f80_1043 {
            return self.joy.read_data8();
        }
        proof {
            crate::bits::lemma_mask_mod_u32(phys);
            crate::bits::lemma_gpu_fields(phys);
        }
        let word = self.read_io32(phys & !3u32);
        proof {
            assert(io_read32(*old(self), phys & !3u32, *self, word));
        }
        ((word >> ((phys & 3) * 8)) & 0xff) as u8
    }

    fn read_io16(&mut self, phys: u32) -> (r: u16)
        requires
            old(self).wf(),
            0x1f80_1000 <= phys <= 0x1f80_1fff,
        ensures
            final(self).wf(),
            final(self).ram@ == old(self).ram@,
            final(self).scratchpad@ == old(self).scratchpad@,
            final(self).cache_control == old(self).cache_control,
            final(self).open_bus == old(self).open_bus,
            phys == 0x1f80_1070 ==> r == old(self).irq.spec_status(),
            phys == 0x1f80_1074 ==> r == old(self).irq.spec_mask(),
            io_read16(*old(self), phys, *final(self), r),
    {
        if phys == 0x1f80_1070 {
            self.irq.status()
        } else if phys == 0x1f80_1074 {
            self.irq.mask()
        } else if 0x1f80_1100 <= phys && phys <= 0x1f80_112f {
            self.timers.read16(phys - 0x1f80_1100)
        } else if 0x1f80_1c00 <= phys && phys <= 0x1f80_1fff {
            self.spu.read16(phys - 0x1f80_1c00)
        } else if phys == 0x1f80_1040 {
            self.joy.read_data16()
        } else if phys == 0x1f80_1044 {
            self.joy.status() as u16
        } else if phys == 0x1f80_1048 {
            self.joy.mode()
        } else if phys == 0x1f80_104a {
            self.joy.control()
        } else if phys == 0x1f80_104e {
            self.joy.baud()
        } else {
            proof {
                crate::bits::lemma_mask_mod_usize((phys - 0x1f80_1000) as usize);
                crate::bits::lemma_mask_mod_usize((phys + 1 - 0x1f80_1000) as usize);
            }
            let lo = self.io[(phys as usize - 0x1f80_1000) & 0x1fff] as u16;
            let hi = self.io[(phys as usize + 1 - 0x1f80_1000) & 0x1fff] as u16;
            lo | (hi << 8u16)
        }
    }

    fn read_io32(&mut self, phys: u32) -> (r: u32)
        requires
            old(self).wf(),
            0x1f80_1000 <= phys <= 0x1f80_1fff,
        ensures
            final(self).wf(),
            final(self).ram@ == old(self).ram@,
            final(self).scratchpad@ == old(self).scratchpad@,
            final(self).cache_control == old(self).cache_control,
            final(self).open_bus == old(self).open_bus,
            phys == 0x1f80_1070 ==> r == old(self).irq.spec_status() as u32,
            phys == 0x1f80_1074 ==> r == old(self).irq.spec_mask() as u32,
            phys == 0x1f80_1814 ==> r == old(self).gpu.gp1_status_spec(),
            io_read32(*old(self), phys, *final(self), r),
    {
        if phys == 0x1f80_1070 {
            self.irq.status() as u32
        } else if phys == 0x1f80_1074 {
            self.irq.mask() as u32
        } else if 0x1f80_1080 <= phys && phys <= 0x1f80_10ff {
            self.dma.read32(phys - 0x1f80_1080)
        } else if 0x1f80_1100 <= phys && phys <= 0x1f80_112f {
            let lo = self.timers.read16(phys - 0x1f80_1100);
            let ghost mid = self.timers;
            let hi = self.timers.read16((phys + 2) - 0x1f80_1100);
            proof {
                assert(timer_register_read(old(self).timers, (phys - 0x1f80_1100) as u32, mid, lo));
            }
            (lo as u32) | ((hi as u32) << 16u32)
        } else if phys == 0x1f80_1040 {
            self.joy.read_data32()
        } else if phys == 0x1f80_1044 {
            self.joy.status()
        } else if phys == 0x1f80_1048 {
            (self.joy.mode() as u32) | ((self.joy.control() as u32) << 16u32)
        } else if phys == 0x1f80_104c {
            (self.joy.baud() as u32) << 16u32
        } else if phys == 0x1f80_1810 {
            self.gpu.read_gp0()
        } else if phys == 0x1f80_1814 {
            self.gpu.read_gp1()
        } else if phys == 0x1f80_1820 {
            self.mdec.read_data()
        } else if phys == 0x1f80_1824 {
            self.mdec.read_status()
        } else {
            proof {
                crate::bits::lemma_mask_mod_usize((phys - 0x1f80_1000) as usize);
            }
            let offset = (phys as usize - 0x1f80_1000) & 0x1fff;
            let b0 = self.io[offset] as u32;
            let b1 = self.io[(offset + 1) % 0x2000] as u32;
            let b2 = self.io[(offset + 2) % 0x2000] as u32;
            let b3 = self.io[(offset + 3) % 0x2000] as u32;
            b0 | (b1 << 8u32) | (b2 << 16u32) | (b3 << 24u32)
        }
    }

    fn write_io8(&mut self, phys: u32, value: u8)
        requires
            old(self).wf(),
            0x1f80_1000 <= phys <= 0x1f80_1fff,
        ensures
            final(self).wf(),
            io_written8(*old(self), phys, value, *final(self)),
    {
        if 0x1f80_1800 <= phys && phys <= 0x1f80_1803 {
            self.cdrom.write8(phys - 0x1f80_1800, value);
            return;
        }
        if phys == 0x1f80_1040 {
            self.joy.write_data8(value);
            return;
        }
        proof {
            crate::bits::lemma_mask_mod_usize((phys - 0x1f80_1000) as usize);
        }
        let offset = (phys as usize - 0x1f80_1000) & 0x1fff;
        self.io.set(offset, value);
    }

    fn write_io16(&mut self, phys: u32, value: u16)
        requires
            old(self).wf(),
            0x1f80_1000 <= phys <= 0x1f80_1fff,
        ensures
            final(self).wf(),
            io_written16(*old(self), phys, value, *final(self)),
    {
        if phys == 0x1f80_1070 {
            self.irq.acknowledge(value);
        } else if phys == 0x1f80_1074 {
            self.irq.set_mask(value);
        } else if 0x1f80_1100 <= phys && phys <= 0x1f80_112f {
            self.timers.write16(phys - 0x1f80_1100, value);
        } else if 0x1f80_1c00 <= phys && phys <= 0x1f80_1fff {
            self.spu.write16(phys - 0x1f80_1c00, value);
        } else if phys == 0x1f80_1040 {
            self.joy.write_data8(value as u8);
        } else if phys == 0x1f80_1048 {
            self.joy.write_mode(value);
        } else if phys == 0x1f80_104a {
            self.joy.write_control(value);
        } else if phys == 0x1f80_104e {
            self.joy.write_baud(value);
        } else {
            proof {
                crate::bits::lemma_mask_mod_usize((phys - 0x1f80_1000) as usize);
            }
            let offset = (phys as usize - 0x1f80_1000) & 0x1fff;
            self.io.set(offset, value as u8);
            self.io.set((offset + 1) % 0x2000, (value >> 8u16) as u8);
        }
    }

    fn write_io32(&mut self, phys: u32, value: u32)
        requires
            old(self).wf(),
            0x1f80_1000 <= phys <= 0x1f80_1fff,
        ensures
            final(self).wf(),
            io_written32(*old(self), phys, value, *final(self)),
    {
        if phys == 0x1f80_1070 {
            self.irq.acknowledge(value as u16);
        } else if phys == 0x1f80_1074 {
            self.irq.set_mask(value as u16);
        } else if 0x1f80_1080 <= phys && phys <= 0x1f80_10ff {
            let result = self.dma.write32(phys - 0x1f80_1080, value);
            if result.irq_edge {
                self.irq.request(IRQ_DMA);
            }
            let ghost mid = *self;
            self.run_pending_dma();
            proof {
                assert(dma_register_written(old(self).dma, (phys - 0x1f80_1080) as u32, value, mid.dma, result));
            }
        } else if 0x1f80_1100 <= phys && phys <= 0x1f80_112f {
            self.timers.write16(phys - 0x1f80_1100, value as u16);
        } else if phys == 0x1f80_1040 {
            self.joy.write_data8(value as u8);
        } else if phys == 0x1f80_1048 {
            self.joy.write_mode(value as u16);
            self.joy.write_control((value >> 16u32) as u16);
        } else if phys == 0x1f80_104c {
            self.joy.write_baud((value >> 16u32) as u16);
        } else if phys == 0x1f80_1810 {
            self.gpu.write_gp0(value);
        } else if phys == 0x1f80_1814 {
            self.gpu.write_gp1(value);
        } else if phys == 0x1f80_1820 {
            self.mdec.write_data(value);
        } else if phys == 0x1f80_1824 {
            self.mdec.write_control(value);
        } else {
            proof {
                crate::bits::lemma_mask_mod_usize((phys - 0x1f80_1000) as usize);
            }
            let offset = (phys as usize - 0x1f80_1000) & 0x1fff;
            self.io.set(offset, value as u8);
            self.io.set((offset + 1) % 0x2000, (value >> 8u32) as u8);
            self.io.set((offset + 2) % 0x2000, (value >> 16u32) as u8);
            self.io.set((offset + 3) % 0x2000, (value >> 24u32) as u8);
        }
    }
}

impl Default for Bus {
    fn default() -> (r: Self)
        ensures
            r.wf(),
    {
        Self::new(None)
    }
}

} // verus!
