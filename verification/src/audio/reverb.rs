//! The reverb unit: a half-rate network of same-side and cross-side
//! reflections, comb filters and two all-pass stages working in a ring
//! buffer of sound RAM.
use crate::SPU_RAM_SIZE;
use vstd::prelude::*;

verus! {

broadcast use crate::bits::group_bits;

pub const REVERB_RAM_MASK: u32 = 0x7_ffffu32;

#[derive(Debug, Clone)]
pub struct Reverb {
    pub base_address: u32,
    pub current_address: u32,
    pub second_half_tick: bool,
    pub last_output: [i16; 2],
}

/// An address moved by `displacement` bytes inside the ring buffer that runs
/// from the base address to the end of sound RAM, aligned to a halfword.
pub open spec fn displaced_spec(base: u32, address: u32, displacement: int) -> u32 {
    let size: int = 0x8_0000 - base;
    if size <= 0 {
        REVERB_RAM_MASK & !1u32
    } else {
        let relative: int = ((address - base) % 0x1_0000_0000) % size;
        let d: int = (relative + displacement) % size;
        ((base + d) as u32) & REVERB_RAM_MASK & !1u32
    }
}

pub open spec fn reverb_multiply(value: i32, volume: i32) -> i32 {
    let p = ((value as i64) * (volume as i64)) as i64 >> 15i64;
    if p < i32::MIN {
        i32::MIN
    } else if p > i32::MAX {
        i32::MAX
    } else {
        p as i32
    }
}

pub open spec fn clamp_i16_spec(v: i32) -> i16 {
    if v < -0x8000 {
        -0x8000i16
    } else if v > 0x7fff {
        0x7fffi16
    } else {
        v as i16
    }
}

/// Whether an access at `address` hits the 8-byte unit of the interrupt address.
pub open spec fn hits_irq(address: u32, irq_address: u32) -> bool {
    address & !7u32 == irq_address & !7u32
}

/// A value saturated to 32 signed bits.
pub open spec fn sat_i32_spec(v: int) -> i32 {
    if v < i32::MIN {
        i32::MIN
    } else if v > i32::MAX {
        i32::MAX
    } else {
        v as i32
    }
}

/// A register as a signed 16-bit volume.
pub open spec fn signed_spec(value: u16) -> i32 {
    value as i16 as i32
}

/// The signed little-endian sample of sound RAM at an address.
pub open spec fn ram_sample(ram: Seq<u8>, address: u32) -> i32 {
    let i = (address & REVERB_RAM_MASK) as int;
    ((ram[i] as u16 | ((ram[(i + 1) % 0x8_0000] as u16) << 8u16)) as i16) as i32
}

/// Sound RAM with a value stored, clamped to 16 bits, as the sample at an address.
pub open spec fn ram_store(ram: Seq<u8>, address: u32, value: i32) -> Seq<u8> {
    let i = (address & REVERB_RAM_MASK) as int;
    let s = clamp_i16_spec(value) as u16;
    ram.update(i, s as u8).update((i + 1) % 0x8_0000, (s >> 8u16) as u8)
}

/// A reflection: the input plus the wall-scaled tap, minus the old sample,
/// scaled by the reflection volume and added back to the old sample.
pub open spec fn reflection(input: i32, tap: i32, old: i32, vwall: i32, viir: i32) -> i32 {
    sat_i32_spec(
        reverb_multiply(sat_i32_spec(sat_i32_spec(input + reverb_multiply(tap, vwall)) - old), viir) + old,
    )
}

impl Reverb {
    /// The address a register names: that many 8-byte units past the ring position.
    pub open spec fn tap(&self, register: u16) -> u32 {
        displaced_spec(self.base_address, self.current_address, (register as int) * 8)
    }

    /// The comb stage over `ram`: four taps, each scaled by its volume, summed
    /// (with 32-bit wrap-around).
    pub open spec fn comb_spec(&self, ram: Seq<u8>, regs: Seq<u16>, a0: int, a1: int, a2: int, a3: int) -> i32 {
        (reverb_multiply(ram_sample(ram, self.tap(regs[a0])), signed_spec(regs[3])) as int + reverb_multiply(
            ram_sample(ram, self.tap(regs[a1])),
            signed_spec(regs[4]),
        ) as int + reverb_multiply(ram_sample(ram, self.tap(regs[a2])), signed_spec(regs[5])) as int
            + reverb_multiply(ram_sample(ram, self.tap(regs[a3])), signed_spec(regs[6])) as int) as i32
    }

    /// Where an all-pass stage reads its delayed sample.
    pub open spec fn all_pass_source(&self, address_register: u16, displacement_register: u16) -> u32 {
        displaced_spec(self.base_address, self.tap(address_register), -((displacement_register as int) * 8))
    }

    /// One all-pass stage over `ram`: the sound RAM after it and its output.
    pub open spec fn all_pass_spec(
        &self,
        ram: Seq<u8>,
        input: i32,
        address_register: u16,
        displacement_register: u16,
        volume: i32,
        writes: bool,
    ) -> (Seq<u8>, i32) {
        let delayed = ram_sample(ram, self.all_pass_source(address_register, displacement_register));
        let value = sat_i32_spec(input - reverb_multiply(delayed, volume));
        (
            if writes {
                ram_store(ram, self.tap(address_register), value)
            } else {
                ram
            },
            sat_i32_spec(reverb_multiply(value, volume) + delayed),
        )
    }

    /// The reflections stage: sound RAM after the four reflection samples
    /// are written back (when writes are enabled).
    pub open spec fn reflections_spec(&self, ram: Seq<u8>, regs: Seq<u16>, input: [i32; 2], writes: bool) -> Seq<u8> {
        let lin = reverb_multiply(input[0], signed_spec(regs[30]));
        let rin = reverb_multiply(input[1], signed_spec(regs[31]));
        let viir = signed_spec(regs[2]);
        let vwall = signed_spec(regs[7]);
        let mlsame = self.tap(regs[10]);
        let mrsame = self.tap(regs[11]);
        let mldiff = self.tap(regs[18]);
        let mrdiff = self.tap(regs[19]);
        let b = self.base_address;
        let lsame = reflection(lin, ram_sample(ram, self.tap(regs[16])), ram_sample(ram, displaced_spec(b, mlsame, -2)), vwall, viir);
        let rsame = reflection(rin, ram_sample(ram, self.tap(regs[17])), ram_sample(ram, displaced_spec(b, mrsame, -2)), vwall, viir);
        let ldiff = reflection(lin, ram_sample(ram, self.tap(regs[25])), ram_sample(ram, displaced_spec(b, mldiff, -2)), vwall, viir);
        let rdiff = reflection(rin, ram_sample(ram, self.tap(regs[24])), ram_sample(ram, displaced_spec(b, mrdiff, -2)), vwall, viir);
        if writes {
            ram_store(ram_store(ram_store(ram_store(ram, mlsame, lsame), mrsame, rsame), mldiff, ldiff), mrdiff, rdiff)
        } else {
            ram
        }
    }

    /// A full reverb sample: sound RAM afterwards and the left and right
    /// outputs before clamping to 16 bits.
    #[verifier::opaque]
    pub open spec fn process_spec(&self, ram: Seq<u8>, regs: Seq<u16>, input: [i32; 2], writes: bool) -> (Seq<u8>, i32, i32) {
        let ram1 = self.reflections_spec(ram, regs, input, writes);
        let left0 = self.comb_spec(ram1, regs, 12, 14, 20, 22);
        let right0 = self.comb_spec(ram1, regs, 13, 15, 21, 23);
        let (ram2, left1) = self.all_pass_spec(ram1, left0, regs[26], regs[0], signed_spec(regs[8]), writes);
        let (ram3, right1) = self.all_pass_spec(ram2, right0, regs[27], regs[0], signed_spec(regs[8]), writes);
        let (ram4, left2) = self.all_pass_spec(ram3, left1, regs[28], regs[1], signed_spec(regs[9]), writes);
        let (ram5, right2) = self.all_pass_spec(ram4, right1, regs[29], regs[1], signed_spec(regs[9]), writes);
        (ram5, left2, right2)
    }

    /// Whether a full reverb sample touches the 8-byte unit of the interrupt
    /// address: any of its reads, or (when enabled) its writes.
    #[verifier::opaque]
    pub open spec fn touches_irq(&self, regs: Seq<u16>, irq_address: u32, writes: bool) -> bool {
        let b = self.base_address;
        let q = irq_address;
        ||| hits_irq(displaced_spec(b, self.tap(regs[10]), -2), q)
        ||| hits_irq(displaced_spec(b, self.tap(regs[11]), -2), q)
        ||| hits_irq(displaced_spec(b, self.tap(regs[18]), -2), q)
        ||| hits_irq(displaced_spec(b, self.tap(regs[19]), -2), q)
        ||| hits_irq(self.tap(regs[16]), q) || hits_irq(self.tap(regs[17]), q)
        ||| hits_irq(self.tap(regs[25]), q) || hits_irq(self.tap(regs[24]), q)
        ||| hits_irq(self.tap(regs[12]), q) || hits_irq(self.tap(regs[14]), q)
        ||| hits_irq(self.tap(regs[20]), q) || hits_irq(self.tap(regs[22]), q)
        ||| hits_irq(self.tap(regs[13]), q) || hits_irq(self.tap(regs[15]), q)
        ||| hits_irq(self.tap(regs[21]), q) || hits_irq(self.tap(regs[23]), q)
        ||| hits_irq(self.all_pass_source(regs[26], regs[0]), q)
        ||| hits_irq(self.all_pass_source(regs[27], regs[0]), q)
        ||| hits_irq(self.all_pass_source(regs[28], regs[1]), q)
        ||| hits_irq(self.all_pass_source(regs[29], regs[1]), q)
        ||| writes && (hits_irq(self.tap(regs[10]), q) || hits_irq(self.tap(regs[11]), q) || hits_irq(self.tap(regs[18]), q)
            || hits_irq(self.tap(regs[19]), q) || hits_irq(self.tap(regs[26]), q) || hits_irq(self.tap(regs[27]), q)
            || hits_irq(self.tap(regs[28]), q) || hits_irq(self.tap(regs[29]), q))
    }
}

impl Reverb {
    pub fn new() -> (r: Self)
        ensures
            r.base_address == 0 && r.current_address == 0 && !r.second_half_tick,
            r.last_output@ == seq![0i16, 0i16],
    {
        let r = Self { base_address: 0, current_address: 0, second_half_tick: false, last_output: [0i16;2] };
        assert(r.last_output@ =~= seq![0i16, 0i16]);
        r
    }

    /// The work-area start register, in 8-byte units; the ring position restarts there.
    pub fn set_base(&mut self, value: u16)
        ensures
            final(self).base_address == (((value as u32) * 8) as u32) & REVERB_RAM_MASK,
            final(self).current_address == final(self).base_address,
            final(self).second_half_tick == old(self).second_half_tick,
            final(self).last_output == old(self).last_output,
            *final(self) == (Reverb {
                base_address: final(self).base_address,
                current_address: final(self).base_address,
                ..*old(self)
            }),
    {
        self.base_address = ((value as u32) * 8) & REVERB_RAM_MASK;
        self.current_address = self.base_address;
    }

    /// Runs the reverb network on every second sample; on the others it
    /// repeats the last output.  Sound RAM is written only when `writes_enabled`.
    /// Returns the wet stereo output and whether an access hit the interrupt address.
    pub fn process(
        &mut self,
        ram: &mut Vec<u8>,
        registers: &[u16; 32],
        input: [i32; 2],
        writes_enabled: bool,
        irq_address: u32,
    ) -> (r: ([i16; 2], bool))
        requires
            old(ram)@.len() == SPU_RAM_SIZE,
        ensures
            final(ram)@.len() == SPU_RAM_SIZE,
            final(self).second_half_tick == !old(self).second_half_tick,
            final(self).base_address == old(self).base_address,
            !writes_enabled ==> final(ram)@ == old(ram)@,
            old(self).second_half_tick ==> {
                &&& r.0 == old(self).last_output
                &&& !r.1
                &&& final(ram)@ == old(ram)@
                &&& final(self).current_address == old(self).current_address
                &&& final(self).last_output == old(self).last_output
            },
            !old(self).second_half_tick ==> {
                let (ram_after, left, right) = old(self).process_spec(old(ram)@, registers@, input, writes_enabled);
                &&& final(ram)@ == ram_after
                &&& r.0[0] == clamp_i16_spec(left)
                &&& r.0[1] == clamp_i16_spec(right)
                &&& r.1 == old(self).touches_irq(registers@, irq_address, writes_enabled)
                &&& final(self).last_output == r.0
                &&& final(self).current_address == displaced_spec(old(self).base_address, old(self).current_address, 2)
            },
    {
        proof {
            reveal(Reverb::process_spec);
            reveal(Reverb::touches_irq);
        }
        self.second_half_tick = !self.second_half_tick;
        if !self.second_half_tick {
            return (self.last_output, false);
        }
        let mut irq = false;
        self.reflections(ram, registers, input, writes_enabled, irq_address, &mut irq);
        let ghost ram1 = ram@;
        let mut left = self.comb(ram, registers, 12, 14, 20, 22, irq_address, &mut irq);
        let mut right = self.comb(ram, registers, 13, 15, 21, 23, irq_address, &mut irq);
        left = self.all_pass(ram, left, registers[26], registers[0], signed(registers[8]), writes_enabled, irq_address, &mut irq);
        right = self.all_pass(ram, right, registers[27], registers[0], signed(registers[8]), writes_enabled, irq_address, &mut irq);
        left = self.all_pass(ram, left, registers[28], registers[1], signed(registers[9]), writes_enabled, irq_address, &mut irq);
        right = self.all_pass(ram, right, registers[29], registers[1], signed(registers[9]), writes_enabled, irq_address, &mut irq);
        self.last_output = [clamp_i16(left), clamp_i16(right)];
        self.current_address = self.displaced(self.current_address, 2);
        (self.last_output, irq)
    }

    /// One reflection into `target`: reads the sample just before it and the
    /// tap the register names.
    fn reflect(
        &self,
        ram: &Vec<u8>,
        input: i32,
        tap_register: u16,
        target: u32,
        vwall: i32,
        viir: i32,
        irq_address: u32,
        irq: &mut bool,
    ) -> (r: i32)
        requires
            ram@.len() == SPU_RAM_SIZE,
        ensures
            r == reflection(
                input,
                ram_sample(ram@, self.tap(tap_register)),
                ram_sample(ram@, displaced_spec(self.base_address, target, -2)),
                vwall,
                viir,
            ),
            *final(irq) == (*old(irq) || hits_irq(displaced_spec(self.base_address, target, -2), irq_address) || hits_irq(
                self.tap(tap_register),
                irq_address,
            )),
    {
        let old_sample = read_sample(ram, self.displaced(target, -2), irq_address, irq);
        let tap = read_sample(ram, self.address(tap_register), irq_address, irq);
        sat_i32(multiply(sat_i32(sat_i32(input as i64 + multiply(tap, vwall) as i64) as i64 - old_sample as i64), viir) as i64
            + old_sample as i64)
    }

    /// The reflections stage: reads the taps and old samples, and (when
    /// enabled) writes the four reflected samples back.
    fn reflections(
        &self,
        ram: &mut Vec<u8>,
        registers: &[u16; 32],
        input: [i32; 2],
        writes_enabled: bool,
        irq_address: u32,
        irq: &mut bool,
    )
        requires
            old(ram)@.len() == SPU_RAM_SIZE,
        ensures
            final(ram)@.len() == SPU_RAM_SIZE,
            final(ram)@ == self.reflections_spec(old(ram)@, registers@, input, writes_enabled),
            ({
                let b = self.base_address;
                let q = irq_address;
                let regs = registers@;
                *final(irq) == (*old(irq) || hits_irq(displaced_spec(b, self.tap(regs[10]), -2), q) || hits_irq(
                    displaced_spec(b, self.tap(regs[11]), -2),
                    q,
                ) || hits_irq(displaced_spec(b, self.tap(regs[18]), -2), q) || hits_irq(
                    displaced_spec(b, self.tap(regs[19]), -2),
                    q,
                ) || hits_irq(self.tap(regs[16]), q) || hits_irq(self.tap(regs[17]), q) || hits_irq(self.tap(regs[25]), q)
                    || hits_irq(self.tap(regs[24]), q) || (writes_enabled && (hits_irq(self.tap(regs[10]), q) || hits_irq(
                    self.tap(regs[11]),
                    q,
                ) || hits_irq(self.tap(regs[18]), q) || hits_irq(self.tap(regs[19]), q))))
            }),
    {
        let lin = multiply(input[0], signed(registers[30]));
        let rin = multiply(input[1], signed(registers[31]));
        let viir = signed(registers[2]);
        let vwall = signed(registers[7]);
        let mlsame = self.address(registers[10]);
        let mrsame = self.address(registers[11]);
        let mldiff = self.address(registers[18]);
        let mrdiff = self.address(registers[19]);
        let lsame = self.reflect(ram, lin, registers[16], mlsame, vwall, viir, irq_address, irq);
        let rsame = self.reflect(ram, rin, registers[17], mrsame, vwall, viir, irq_address, irq);
        let ldiff = self.reflect(ram, lin, registers[25], mldiff, vwall, viir, irq_address, irq);
        let rdiff = self.reflect(ram, rin, registers[24], mrdiff, vwall, viir, irq_address, irq);
        if writes_enabled {
            write_sample(ram, mlsame, lsame, irq_address, irq);
            write_sample(ram, mrsame, rsame, irq_address, irq);
            write_sample(ram, mldiff, ldiff, irq_address, irq);
            write_sample(ram, mrdiff, rdiff, irq_address, irq);
        }
    }

    /// The comb stage: four delayed taps, each scaled by its volume, summed.
    fn comb(
        &self,
        ram: &Vec<u8>,
        registers: &[u16; 32],
        a0: usize,
        a1: usize,
        a2: usize,
        a3: usize,
        irq_address: u32,
        irq: &mut bool,
    ) -> (r: i32)
        requires
            ram@.len() == SPU_RAM_SIZE,
            a0 < 32 && a1 < 32 && a2 < 32 && a3 < 32,
        ensures
            r == self.comb_spec(ram@, registers@, a0 as int, a1 as int, a2 as int, a3 as int),
            *final(irq) == (*old(irq) || hits_irq(self.tap(registers[a0 as int]), irq_address) || hits_irq(
                self.tap(registers[a1 as int]),
                irq_address,
            ) || hits_irq(self.tap(registers[a2 as int]), irq_address) || hits_irq(self.tap(registers[a3 as int]), irq_address)),
    {
        let t0 = multiply(read_sample(ram, self.address(registers[a0]), irq_address, irq), signed(registers[3]));
        let t1 = multiply(read_sample(ram, self.address(registers[a1]), irq_address, irq), signed(registers[4]));
        let t2 = multiply(read_sample(ram, self.address(registers[a2]), irq_address, irq), signed(registers[5]));
        let t3 = multiply(read_sample(ram, self.address(registers[a3]), irq_address, irq), signed(registers[6]));
        (t0 as i64 + t1 as i64 + t2 as i64 + t3 as i64) as i32
    }

    /// One all-pass stage.
    fn all_pass(
        &self,
        ram: &mut Vec<u8>,
        input: i32,
        address_register: u16,
        displacement_register: u16,
        volume: i32,
        writes_enabled: bool,
        irq_address: u32,
        irq: &mut bool,
    ) -> (r: i32)
        requires
            old(ram)@.len() == SPU_RAM_SIZE,
        ensures
            final(ram)@.len() == SPU_RAM_SIZE,
            (final(ram)@, r) == self.all_pass_spec(old(ram)@, input, address_register, displacement_register, volume, writes_enabled),
            *final(irq) == (*old(irq) || hits_irq(self.all_pass_source(address_register, displacement_register), irq_address)
                || (writes_enabled && hits_irq(self.tap(address_register), irq_address))),
    {
        let address = self.address(address_register);
        let displaced = self.displaced(address, -((displacement_register as i32) * 8));
        let delayed = read_sample(ram, displaced, irq_address, irq);
        let value = sat_i32(input as i64 - multiply(delayed, volume) as i64);
        if writes_enabled {
            write_sample(ram, address, value, irq_address, irq);
        }
        sat_i32(multiply(value, volume) as i64 + delayed as i64)
    }

    /// A register-relative address: the register counts 8-byte units from
    /// the current ring position.
    fn address(&self, register: u16) -> (r: u32)
        ensures
            r == displaced_spec(self.base_address, self.current_address, (register as int) * 8),
    {
        self.displaced(self.current_address, (register as i32) * 8)
    }

    fn displaced(&self, address: u32, displacement: i32) -> (r: u32)
        requires
            -0x8_0000 <= displacement <= 0x8_0000,
        ensures
            r == displaced_spec(self.base_address, address, displacement as int),
    {
        let base = self.base_address;
        if base >= 0x8_0000 {
            return REVERB_RAM_MASK & !1u32;
        }
        let size: u32 = 0x8_0000 - base;
        let relative: u32 = address.wrapping_sub(base) % size;
        let shifted: u64 = (relative as i64 + displacement as i64 + 0x8_0000 * size as i64) as u64;
        let d: u32 = (shifted % size as u64) as u32;
        proof {
            vstd::arithmetic::div_mod::lemma_mod_multiples_vanish(0x8_0000, relative + displacement, size as int);
            assert((address - base) % 0x1_0000_0000 == address.wrapping_sub(base) as int);
        }
        (base + d) & REVERB_RAM_MASK & !1u32
    }
}

impl Default for Reverb {
    fn default() -> (r: Self)
        ensures
            r.base_address == 0 && r.current_address == 0 && !r.second_half_tick,
    {
        Self::new()
    }
}

fn signed(value: u16) -> (r: i32)
    ensures
        r == value as i16 as i32,
{
    value as i16 as i32
}

fn sat_i32(v: i64) -> (r: i32)
    ensures
        r == if v < i32::MIN { i32::MIN } else if v > i32::MAX { i32::MAX } else { v as i32 },
{
    if v < i32::MIN as i64 {
        i32::MIN
    } else if v > i32::MAX as i64 {
        i32::MAX
    } else {
        v as i32
    }
}

/// A sample scaled by a signed 1.15 volume, saturated to 32 bits.
pub fn multiply(value: i32, volume: i32) -> (r: i32)
    ensures
        r == reverb_multiply(value, volume),
{
    proof {
        crate::bits::lemma_mul_bounds(value as int, volume as int, 0x8000_0000, 0x8000_0000);
    }
    let p: i64 = (value as i64 * volume as i64) >> 15i64;
    if p < i32::MIN as i64 {
        i32::MIN
    } else if p > i32::MAX as i64 {
        i32::MAX
    } else {
        p as i32
    }
}

pub fn clamp_i16(value: i32) -> (r: i16)
    ensures
        r == clamp_i16_spec(value),
{
    if value < -0x8000 {
        -0x8000
    } else if value > 0x7fff {
        0x7fff
    } else {
        value as i16
    }
}

fn read_sample(ram: &Vec<u8>, address: u32, irq_address: u32, irq: &mut bool) -> (r: i32)
    requires
        ram@.len() == SPU_RAM_SIZE,
    ensures
        *final(irq) == (*old(irq) || hits_irq(address, irq_address)),
        r == ram_sample(ram@, address),
{
    *irq = *irq || (address & !7u32) == (irq_address & !7u32);
    let index = (address & REVERB_RAM_MASK) as usize;
    let lo = ram[index] as u16;
    let hi = ram[(index + 1) % SPU_RAM_SIZE] as u16;
    (lo | (hi << 8u16)) as i16 as i32
}

fn write_sample(ram: &mut Vec<u8>, address: u32, value: i32, irq_address: u32, irq: &mut bool)
    requires
        old(ram)@.len() == SPU_RAM_SIZE,
    ensures
        *final(irq) == (*old(irq) || hits_irq(address, irq_address)),
        final(ram)@ == ram_store(old(ram)@, address, value),
{
    *irq = *irq || (address & !7u32) == (irq_address & !7u32);
    let index = (address & REVERB_RAM_MASK) as usize;
    let s = clamp_i16(value) as u16;
    ram.set(index, s as u8);
    ram.set((index + 1) % SPU_RAM_SIZE, (s >> 8u16) as u8);
}

} // verus!
