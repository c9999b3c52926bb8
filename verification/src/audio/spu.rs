//! The SPU: register file, sound RAM transfers, the 24-voice mixer with CD
//! input, capture buffers and reverb, and the 44.1 kHz stereo output queue.
use super::envelope::{sat_add_i32, sat_add_i32_exec, volume_tick_spec, volume_written, VolumeEnvelope};
use super::reverb::{clamp_i16_spec, displaced_spec, hits_irq, multiply, reverb_multiply, Reverb, REVERB_RAM_MASK};
use super::voice::{keyed_off, keyed_on, tick_result, voice_register_written, voice_tick_spec, Voice};
use crate::SPU_RAM_SIZE;
use std::collections::VecDeque;
use vstd::prelude::*;

verus! {

broadcast use crate::bits::group_bits;

pub const SPU_OUTPUT_HZ: u32 = 44_100u32;
/// CPU cycles per output sample frame (33868800 / 44100).
pub const SPU_CYCLES_PER_SAMPLE: u32 = 768u32;
pub const VOICE_COUNT: usize = 24usize;
/// Output and CD input queues hold one second of stereo samples.
pub const OUTPUT_CAPACITY: usize = 88_200usize;
pub const SPU_RAM_MASK: u32 = 0x7_ffffu32;

pub const REG_MAIN_VOLUME_LEFT: u32 = 0x180u32;
pub const REG_MAIN_VOLUME_RIGHT: u32 = 0x182u32;
pub const REG_REVERB_VOLUME_LEFT: u32 = 0x184u32;
pub const REG_REVERB_VOLUME_RIGHT: u32 = 0x186u32;
pub const REG_KEY_ON_LOW: u32 = 0x188u32;
pub const REG_KEY_ON_HIGH: u32 = 0x18au32;
pub const REG_KEY_OFF_LOW: u32 = 0x18cu32;
pub const REG_KEY_OFF_HIGH: u32 = 0x18eu32;
pub const REG_PITCH_MOD_LOW: u32 = 0x190u32;
pub const REG_NOISE_LOW: u32 = 0x194u32;
pub const REG_REVERB_ON_LOW: u32 = 0x198u32;
pub const REG_ENDX_LOW: u32 = 0x19cu32;
pub const REG_ENDX_HIGH: u32 = 0x19eu32;
pub const REG_REVERB_BASE: u32 = 0x1a2u32;
pub const REG_IRQ_ADDRESS: u32 = 0x1a4u32;
pub const REG_TRANSFER_ADDRESS: u32 = 0x1a6u32;
pub const REG_TRANSFER_FIFO: u32 = 0x1a8u32;
pub const REG_CONTROL: u32 = 0x1aau32;
pub const REG_TRANSFER_CONTROL: u32 = 0x1acu32;
pub const REG_STATUS: u32 = 0x1aeu32;
pub const REG_CD_VOLUME_LEFT: u32 = 0x1b0u32;
pub const REG_CD_VOLUME_RIGHT: u32 = 0x1b2u32;
pub const REG_CURRENT_MAIN_LEFT: u32 = 0x1b8u32;
pub const REG_CURRENT_MAIN_RIGHT: u32 = 0x1bau32;
pub const REG_REVERB_CONFIG_START: u32 = 0x1c0u32;
pub const REG_INTERNAL_VOICE_START: u32 = 0x200u32;

#[derive(Debug, Clone)]
pub struct Spu {
    pub registers: Vec<u16>,
    pub ram: Vec<u8>,
    pub voices: [Voice; 24],
    pub main_volume_left: VolumeEnvelope,
    pub main_volume_right: VolumeEnvelope,
    pub reverb: Reverb,
    pub transfer_address: u32,
    pub transfer_fifo: VecDeque<u16>,
    pub control: u16,
    pub applied_control: u16,
    pub end_flags: u32,
    pub cycle_accumulator: u32,
    pub output: VecDeque<i16>,
    pub cd_input: VecDeque<i16>,
    pub capture_offset: u16,
    pub noise_level: u16,
    pub noise_timer: i32,
    pub irq_flag: bool,
    pub irq_edge_pending: bool,
}

/// Both SPU enable (bit 15) and IRQ enable (bit 6) are set in SPUCNT.
pub open spec fn irq_enabled(control: u16) -> bool {
    control & 0x8040 == 0x8040
}

/// The 32-bit key-on/off mask that a write of the low or high halfword makes.
pub open spec fn write_mask_spec(offset: u32, value: u16) -> u32 {
    if offset & 2 == 0 {
        value as u32
    } else {
        ((value as u32) * 0x1_0000) as u32
    }
}

/// The noise generator after one sample: the timer falls by 4 to 7 (SPUCNT
/// bits 8-9); when it goes below zero the shift register takes in the
/// inverted parity of bits 15, 12, 11 and 10 and the timer is reloaded with
/// 0x20000 >> shift (bits 10-13), twice if still negative.
pub open spec fn noise_step_spec(level: u16, timer: i32, control: u16) -> (u16, i32) {
    let step = ((control >> 8u16) & 3) + 4;
    let shift = (control >> 10u16) & 0x0f;
    let t = timer - step;
    let parity = ((level >> 15u16) ^ (level >> 12u16) ^ (level >> 11u16) ^ (level >> 10u16) ^ 1u16) & 1u16;
    if t < 0 {
        let reload = 0x2_0000u32 >> (shift as u32);
        let next = ((level << 1u16) | parity) as u16;
        if t + reload < 0 {
            (next, (t + 2 * reload) as i32)
        } else {
            (next, (t + reload) as i32)
        }
    } else {
        (level, t as i32)
    }
}

/// The cycle accumulator after `cycles` more CPU cycles (saturating).
pub open spec fn tick_total(accumulator: u32, cycles: u32) -> int {
    if accumulator + cycles > u32::MAX {
        u32::MAX as int
    } else {
        accumulator + cycles
    }
}

/// The sound-RAM transfer address after one halfword.
pub open spec fn next_transfer_address(a: u32) -> u32 {
    ((a + 2) % 0x8_0000) as u32
}

/// Whether voice `k`'s bit is set in a 24-voice flag word.
pub open spec fn voice_bit(bits: u32, k: int) -> bool {
    bits & (1u32 << (k as u32)) != 0
}

/// The 32-bit flag word of a low/high register pair.
pub open spec fn flag_word(regs: Seq<u16>, low_offset: u32) -> u32 {
    regs[(low_offset / 2) as int] as u32 | ((regs[(low_offset / 2) + 1] as u32) << 16u32)
}

/// Voice `k`'s pitch modulation: the previous voice's output, when its bit is
/// set (voice 0 is never modulated).
pub open spec fn voice_modulation(regs: Seq<u16>, previous: i16, k: int) -> Option<i16> {
    if k != 0 && voice_bit(flag_word(regs, REG_PITCH_MOD_LOW), k) {
        Some(previous)
    } else {
        None
    }
}

/// Voice `k`'s noise input, when its bit is set.
pub open spec fn voice_noise(regs: Seq<u16>, noise: u16, k: int) -> Option<i16> {
    if voice_bit(flag_word(regs, REG_NOISE_LOW), k) {
        Some(noise as i16)
    } else {
        None
    }
}

/// What the voice mixer has gathered after the first `k` voices: the last
/// voice's output, the dry left and right sums, the reverb sends, the
/// outputs of voices 1 and 3 (for capture), whether a voice's block touched
/// the interrupt address, and the end flags.
pub open spec fn mix_fold(
    old_voices: [Voice; 24],
    regs: Seq<u16>,
    noise: u16,
    end_flags: u32,
    irq_address: u32,
    voices: [Voice; 24],
    k: nat,
) -> (i16, int, int, i32, i32, i16, i16, bool, u32)
    decreases k,
{
    if k == 0 {
        (0i16, 0, 0, 0i32, 0i32, 0i16, 0i16, false, end_flags)
    } else {
        let j = k - 1;
        let p = mix_fold(old_voices, regs, noise, end_flags, irq_address, voices, (k - 1) as nat);
        let t = tick_result(old_voices[j], irq_address, voice_modulation(regs, p.0, j), voice_noise(regs, noise, j), voices[j]);
        let left = reverb_multiply(t.output as i32, voices[j].volume_left.level as i16 as i32);
        let right = reverb_multiply(t.output as i32, voices[j].volume_right.level as i16 as i32);
        let send = voice_bit(flag_word(regs, REG_REVERB_ON_LOW), j);
        (
            t.output,
            p.1 + left,
            p.2 + right,
            if send { sat_add_i32(p.3, left) } else { p.3 },
            if send { sat_add_i32(p.4, right) } else { p.4 },
            if j == 1 { t.output } else { p.5 },
            if j == 3 { t.output } else { p.6 },
            p.7 || t.irq,
            if t.end_reached { p.8 | (1u32 << (j as u32)) } else { p.8 },
        )
    }
}

/// All 24 voices stepped through one frame.
pub open spec fn voices_stepped(
    old_voices: [Voice; 24],
    regs: Seq<u16>,
    noise: u16,
    end_flags: u32,
    irq_address: u32,
    ram: Seq<u8>,
    new_voices: [Voice; 24],
) -> bool {
    forall|j: int| 0 <= j < 24 ==> voice_step_ok(old_voices, regs, noise, end_flags, irq_address, ram, new_voices, j)
}

/// Voice `j` of `voices` is voice `j` of `old_voices` after one sample, with
/// the modulation and noise the mixer gives it.
pub open spec fn voice_step_ok(
    old_voices: [Voice; 24],
    regs: Seq<u16>,
    noise: u16,
    end_flags: u32,
    irq_address: u32,
    ram: Seq<u8>,
    voices: [Voice; 24],
    j: int,
) -> bool {
    let p = mix_fold(old_voices, regs, noise, end_flags, irq_address, voices, j as nat);
    let m = voice_modulation(regs, p.0, j);
    let n = voice_noise(regs, noise, j);
    voice_tick_spec(old_voices[j], ram, irq_address, m, n, voices[j], tick_result(old_voices[j], irq_address, m, n, voices[j]))
}

/// The mixer's gathering up to voice `k` reads only voices before `k`.
proof fn lemma_mix_fold_prefix(
    old_voices: [Voice; 24],
    regs: Seq<u16>,
    noise: u16,
    end_flags: u32,
    irq_address: u32,
    a: [Voice; 24],
    b: [Voice; 24],
    k: nat,
)
    requires
        k <= 24,
        forall|j: int| 0 <= j < k ==> a[j] == b[j],
    ensures
        mix_fold(old_voices, regs, noise, end_flags, irq_address, a, k) == mix_fold(old_voices, regs, noise, end_flags, irq_address, b, k),
    decreases k,
{
    if k > 0 {
        lemma_mix_fold_prefix(old_voices, regs, noise, end_flags, irq_address, a, b, (k - 1) as nat);
    }
}

/// Sound RAM with one sample's capture halfwords written at `offset` in the
/// four capture buffers: CD left and right, voice 1 and voice 3.
pub open spec fn captured_ram(ram: Seq<u8>, offset: u16, cd_left: i16, cd_right: i16, voice1: i16, voice3: i16) -> Seq<u8> {
    let c = offset as int;
    ram.update(c, cd_left as u16 as u8).update(c + 1, ((cd_left as u16) >> 8u16) as u8).update(
        0x400 + c,
        cd_right as u16 as u8,
    ).update(0x401 + c, ((cd_right as u16) >> 8u16) as u8).update(0x800 + c, voice1 as u16 as u8).update(
        0x801 + c,
        ((voice1 as u16) >> 8u16) as u8,
    ).update(0xc00 + c, voice3 as u16 as u8).update(0xc01 + c, ((voice3 as u16) >> 8u16) as u8)
}

/// One channel of an output frame: the CD input when SPUCNT enables it,
/// plus the dry voices and the reverb return when the SPU is enabled and
/// unmuted (bits 15 and 14), scaled by the main volume and clamped.
pub open spec fn output_sample(control: u16, cd: i32, voices: int, wet: i32, main_volume: i16) -> i16 {
    let cd_part: int = if control & 1 != 0 { cd as int } else { 0 };
    let mix: int = if control & 0xc000 == 0xc000 { cd_part + (voices + wet) } else { cd_part };
    clamp_wide_spec(((mix * main_volume) as i64) >> 15i64)
}

/// The reverb unit `n` after one output sample from `r`: its half-rate
/// toggle flips; on a computing sample the ring position moves on by a
/// halfword and the output is kept.
pub open spec fn reverb_after(r: Reverb, n: Reverb, wet: (i16, i16)) -> bool {
    &&& n.base_address == r.base_address
    &&& n.second_half_tick == !r.second_half_tick
    &&& if r.second_half_tick {
        n.current_address == r.current_address && n.last_output == r.last_output
    } else {
        &&& n.current_address == displaced_spec(r.base_address, r.current_address, 2)
        &&& n.last_output[0] == wet.0 && n.last_output[1] == wet.1
    }
}

/// The halfwords a manual transfer writes from the FIFO: as they are for
/// transfer type 2; each group of 2 or 4 repeating its first for types 3
/// and 4; each group of 8 repeating its last for type 5; and every one
/// replaced by the last otherwise.
pub open spec fn transfer_output_spec(input: Seq<u16>, transfer_type: u16) -> Seq<u16> {
    if transfer_type == 2 {
        input
    } else if transfer_type == 3 {
        Seq::new(input.len(), |i: int| repeat_groups_spec(input, 2, 0, i))
    } else if transfer_type == 4 {
        Seq::new(input.len(), |i: int| repeat_groups_spec(input, 4, 0, i))
    } else if transfer_type == 5 {
        Seq::new(input.len(), |i: int| repeat_groups_spec(input, 8, 7, i))
    } else {
        Seq::new(input.len(), |i: int| input.last())
    }
}

/// Halfwords written one by one at the transfer address from `address`:
/// sound RAM afterwards, the transfer address after them, and whether any
/// write fell in the 8-byte unit of `irq_address`.
pub open spec fn halfword_writes(ram: Seq<u8>, address: u32, irq_address: u32, values: Seq<u16>) -> (Seq<u8>, u32, bool)
    decreases values.len(),
{
    if values.len() == 0 {
        (ram, address, false)
    } else {
        let prev = halfword_writes(ram, address, irq_address, values.drop_last());
        let a = prev.1;
        let v = values.last();
        (
            prev.0.update(a as int, v as u8).update(a + 1, (v >> 8u16) as u8),
            next_transfer_address(a),
            prev.2 || hits_irq(a, irq_address),
        )
    }
}

/// The interrupt flag and pending edge after accesses that did (`hit`) or
/// did not touch the interrupt address: a hit sets both when interrupts are
/// enabled and the flag is not yet set.
pub open spec fn raised_flags(flag: bool, edge: bool, control: u16, hit: bool) -> (bool, bool) {
    if hit && irq_enabled(control) && !flag {
        (true, true)
    } else {
        (flag, edge)
    }
}

/// Transfers that write from an even address inside sound RAM stay even and inside it.
proof fn lemma_halfword_writes_address(ram: Seq<u8>, address: u32, irq_address: u32, values: Seq<u16>)
    requires
        address < 0x8_0000,
        address % 2 == 0,
        ram.len() == SPU_RAM_SIZE,
    ensures
        halfword_writes(ram, address, irq_address, values).1 < 0x8_0000,
        halfword_writes(ram, address, irq_address, values).1 % 2 == 0,
        halfword_writes(ram, address, irq_address, values).0.len() == SPU_RAM_SIZE,
    decreases values.len(),
{
    if values.len() > 0 {
        lemma_halfword_writes_address(ram, address, irq_address, values.drop_last());
    }
}

/// A word written to sound RAM through the transfer port reads back through
/// it: starting both at the same (even) transfer address, the bytes a write
/// stores are the bytes a read returns, in the same order.
pub proof fn lemma_transfer_word_round_trip(ram: Seq<u8>, a0: u32, value: u32)
    requires
        ram.len() == SPU_RAM_SIZE,
        a0 < 0x8_0000,
        a0 % 2 == 0,
    ensures
        ({
            let a1 = next_transfer_address(a0);
            let w = ram.update(a0 as int, value as u8).update(a0 + 1, (value >> 8u32) as u8).update(
                a1 as int,
                (value >> 16u32) as u8,
            ).update(a1 + 1, (value >> 24u32) as u8);
            (w[a0 as int] as u32) | ((w[a0 + 1] as u32) << 8u32) | ((w[a1 as int] as u32) << 16u32) | ((w[a1 + 1] as u32)
                << 24u32) == value
        }),
{
    crate::bus::lemma_word_of_bytes(value);
}

/// The output queue after one stereo frame is appended; a full queue first
/// drops its oldest frame.
pub open spec fn pushed_frame(out: Seq<i16>, left: i16, right: i16) -> Seq<i16> {
    if out.len() + 2 > OUTPUT_CAPACITY {
        out.subrange(2, out.len() as int).push(left).push(right)
    } else {
        out.push(left).push(right)
    }
}

pub open spec fn clamp_wide_spec(v: i64) -> i16 {
    if v < -0x8000 {
        -0x8000i16
    } else if v > 0x7fff {
        0x7fffi16
    } else {
        v as i16
    }
}

/// State `i + 1` follows state `i` by one output frame (the cycle
/// accumulator aside).
pub open spec fn frame_link(states: Seq<Spu>, i: int) -> bool {
    sample_step(states[i], Spu { cycle_accumulator: states[i].cycle_accumulator, ..states[i + 1] })
}

/// One output frame, from `o` to `n`: SPUCNT latched, a manual transfer
/// committed, main volumes and noise advanced, the 24 voices run, the
/// capture buffers written, CD audio and the reverb return mixed, the
/// stereo result queued, and the interrupt flag raised when any of it
/// touched the IRQ address.
#[verifier::opaque]
pub open spec fn sample_step(o: Spu, n: Spu) -> bool {
    &&& n.applied_control == o.control
    &&& n.control == o.control
    &&& n.registers@ == o.registers@
    &&& n.cycle_accumulator == o.cycle_accumulator
    &&& n.capture_offset == ((o.capture_offset + 2) as u16) & 0x3ff
    &&& n.main_volume_left == volume_tick_spec(o.main_volume_left)
    &&& n.main_volume_right == volume_tick_spec(o.main_volume_right)
    &&& n.cd_input@ == o.cd_input@.skip(
        if o.cd_input@.len() < 2 { o.cd_input@.len() as int } else { 2 },
    )
    &&& (n.noise_level, n.noise_timer) == noise_step_spec(
        o.noise_level,
        o.noise_timer,
        o.control,
    )
    &&& (o.control >> 4u16) & 3 == 1 ==> n.transfer_fifo@.len() == 0
    &&& (o.control >> 4u16) & 3 != 1 ==> n.transfer_fifo == o.transfer_fifo
    &&& ({
        let c = o.control;
        let regs = o.registers@;
        let q = o.spec_irq_address();
        let flush = (c >> 4u16) & 3 == 1;
        let fw = halfword_writes(o.ram@, o.transfer_address, q, transfer_output_spec(
            o.transfer_fifo@,
            (regs[(REG_TRANSFER_CONTROL / 2) as int] >> 1u16) & 7,
        ));
        let ram1 = if flush { fw.0 } else { o.ram@ };
        let noise = noise_step_spec(o.noise_level, o.noise_timer, c).0;
        let f = mix_fold(o.voices, regs, noise, o.end_flags, q, n.voices, 24);
        let cd_left: i16 = if o.cd_input@.len() > 0 { o.cd_input@[0] } else { 0 };
        let cd_right: i16 = if o.cd_input@.len() > 1 { o.cd_input@[1] } else { 0 };
        let ram2 = captured_ram(ram1, o.capture_offset, cd_left, cd_right, f.5, f.6);
        let cdl = reverb_multiply(cd_left as i32, regs[(REG_CD_VOLUME_LEFT / 2) as int] as i16 as i32);
        let cdr = reverb_multiply(cd_right as i32, regs[(REG_CD_VOLUME_RIGHT / 2) as int] as i16 as i32);
        let cd_send = c & 1 != 0 && c & 4 != 0;
        let send_l = if cd_send { sat_add_i32(f.3, cdl) } else { f.3 };
        let send_r = if cd_send { sat_add_i32(f.4, cdr) } else { f.4 };
        let p = o.reverb.process_spec(ram2, o.reverb_registers(), [send_l, send_r], c & 0x80 != 0);
        let wet16: (i16, i16) = if o.reverb.second_half_tick {
            (o.reverb.last_output[0], o.reverb.last_output[1])
        } else {
            (clamp_i16_spec(p.1), clamp_i16_spec(p.2))
        };
        let wet_l = reverb_multiply(wet16.0 as i32, regs[(REG_REVERB_VOLUME_LEFT / 2) as int] as i16 as i32);
        let wet_r = reverb_multiply(wet16.1 as i32, regs[(REG_REVERB_VOLUME_RIGHT / 2) as int] as i16 as i32);
        let vol_l = volume_tick_spec(o.main_volume_left).level as i16;
        let vol_r = volume_tick_spec(o.main_volume_right).level as i16;
        &&& voices_stepped(o.voices, regs, noise, o.end_flags, q, ram1, n.voices)
        &&& n.end_flags == f.8
        &&& n.ram@ == if o.reverb.second_half_tick { ram2 } else { p.0 }
        &&& reverb_after(o.reverb, n.reverb, wet16)
        &&& n.transfer_address == if flush { fw.1 } else { o.transfer_address }
        &&& n.output@ == pushed_frame(
            o.output@,
            output_sample(c, cdl, f.1, wet_l, vol_l),
            output_sample(c, cdr, f.2, wet_r, vol_r),
        )
        &&& (n.irq_flag, n.irq_edge_pending) == raised_flags(
            o.irq_flag,
            o.irq_edge_pending,
            c,
            (flush && fw.2) || f.7 || o.capture_hits() || (!o.reverb.second_half_tick && o.reverb.touches_irq(
                o.reverb_registers(),
                q,
                c & 0x80 != 0,
            )),
        )
    })
}

/// What a write of `value` to the SPU register at `offset` does to the SPU:
/// a voice register goes to its voice; any other register is stored and,
/// for the main volumes, key on/off, reverb base, transfer address, transfer
/// FIFO and SPUCNT, also acts.
pub open spec fn spu_register_written(o: Spu, offset: u32, value: u16, n: Spu) -> bool {
    let reg = offset & 0x3fe;
    if reg < REG_MAIN_VOLUME_LEFT {
        let i = (reg / 0x10) as int;
        &&& n == (Spu { voices: n.voices, ..o })
        &&& voice_register_written(o.voices[i], reg & 0x0f, value, n.voices[i])
        &&& forall|j: int| 0 <= j < 24 && j != i ==> #[trigger] n.voices[j] == o.voices[j]
    } else {
        &&& n.registers@ == o.registers@.update((reg / 2) as int, value)
        &&& if reg == REG_MAIN_VOLUME_LEFT {
            n == (Spu { registers: n.registers, main_volume_left: volume_written(o.main_volume_left, value), ..o })
        } else if reg == REG_MAIN_VOLUME_RIGHT {
            n == (Spu { registers: n.registers, main_volume_right: volume_written(o.main_volume_right, value), ..o })
        } else if reg == REG_KEY_ON_LOW || reg == REG_KEY_ON_HIGH {
            let mask = write_mask_spec(reg, value) & 0x00ff_ffff;
            &&& n == (Spu { registers: n.registers, voices: n.voices, end_flags: o.end_flags & !mask, ..o })
            &&& forall|j: int|
                0 <= j < 24 ==> if mask & (1u32 << (j as u32)) != 0 {
                    keyed_on(o.voices[j], #[trigger] n.voices[j])
                } else {
                    n.voices[j] == o.voices[j]
                }
        } else if reg == REG_KEY_OFF_LOW || reg == REG_KEY_OFF_HIGH {
            let mask = write_mask_spec(reg, value);
            &&& n == (Spu { registers: n.registers, voices: n.voices, ..o })
            &&& forall|j: int|
                0 <= j < 24 ==> #[trigger] n.voices[j] == if mask & (1u32 << (j as u32)) != 0 {
                    keyed_off(o.voices[j])
                } else {
                    o.voices[j]
                }
        } else if reg == REG_REVERB_BASE {
            let base = (((value as u32) * 8) as u32) & REVERB_RAM_MASK;
            n == (Spu {
                registers: n.registers,
                reverb: Reverb { base_address: base, current_address: base, ..o.reverb },
                ..o
            })
        } else if reg == REG_TRANSFER_ADDRESS {
            n == (Spu { registers: n.registers, transfer_address: ((value as u32) * 8) as u32, ..o })
        } else if reg == REG_TRANSFER_FIFO {
            &&& n == (Spu { registers: n.registers, transfer_fifo: n.transfer_fifo, ..o })
            &&& n.transfer_fifo@ == if o.transfer_fifo@.len() == 32 {
                o.transfer_fifo@.drop_first().push(value)
            } else {
                o.transfer_fifo@.push(value)
            }
        } else if reg == REG_CONTROL {
            n == (Spu {
                registers: n.registers,
                control: value,
                irq_flag: irq_enabled(value) && o.irq_flag,
                irq_edge_pending: irq_enabled(value) && o.irq_edge_pending,
                ..o
            })
        } else {
            n == (Spu { registers: n.registers, ..o })
        }
    }
}

/// How the SPU advances by `cycles` CPU cycles, and whether that reports an interrupt edge (`r`).
pub open spec fn spu_ticked(o: Spu, cycles: u32, n: Spu, r: bool) -> bool {
    &&& (!n.irq_edge_pending)
    &&& (n.control == o.control)
    &&& (n.registers@ == o.registers@)
    &&& (({
        let acc = tick_total(o.cycle_accumulator, cycles);
        let frames = acc / 768;
        &&& n.cycle_accumulator == acc % 768
        &&& frames == 0 ==> r == o.irq_edge_pending && n == (Spu {
            cycle_accumulator: n.cycle_accumulator,
            irq_edge_pending: false,
            ..o
        })
        &&& o.output@.len() + 2 * frames <= OUTPUT_CAPACITY ==> n.output@.len()
            == o.output@.len() + 2 * frames
        &&& !irq_enabled(o.control) ==> n.irq_flag == o.irq_flag
            && r == o.irq_edge_pending
        &&& exists|states: Seq<Spu>|
            {
                &&& states.len() == frames + 1
                &&& states[0] == (Spu { cycle_accumulator: states[0].cycle_accumulator, ..o })
                &&& forall|i: int|
                    0 <= i < frames ==> #[trigger] frame_link(states, i)
                &&& n == (Spu { irq_edge_pending: false, ..states[frames] })
                &&& r == states[frames].irq_edge_pending
            }
    }))
}

/// A DMA word written to sound RAM at the transfer address.
pub open spec fn spu_dma_written(o: Spu, value: u32, n: Spu) -> bool {
    &&& (({
        let a0 = o.transfer_address;
        let a1 = next_transfer_address(a0);
        &&& n.ram@ == o.ram@.update(a0 as int, value as u8).update(
            a0 + 1,
            (value >> 8u32) as u8,
        ).update(a1 as int, (value >> 16u32) as u8).update(a1 + 1, (value >> 24u32) as u8)
        &&& n.transfer_address == next_transfer_address(a1)
        &&& n == (Spu {
            ram: n.ram,
            transfer_address: n.transfer_address,
            irq_flag: n.irq_flag,
            irq_edge_pending: n.irq_edge_pending,
            ..o
        })
        &&& (n.irq_flag, n.irq_edge_pending) == touched_twice(o, a0, a1)
    }))
    &&& (n.registers@ == o.registers@)
    &&& (n.control == o.control)
}

/// The interrupt flag and edge after RAM accesses at `a0` and then `a1`:
/// each one that falls in the interrupt address's 8-byte unit raises them
/// when interrupts are enabled and the flag is not yet set.
pub open spec fn touched_twice(o: Spu, a0: u32, a1: u32) -> (bool, bool) {
    let unit = o.spec_irq_address() & !7u32;
    let (f1, e1) = raised_flags(o.irq_flag, o.irq_edge_pending, o.control, a0 & !7u32 == unit);
    raised_flags(f1, e1, o.control, a1 & !7u32 == unit)
}

/// A DMA word `r` read from sound RAM at the transfer address.
pub open spec fn spu_dma_read(o: Spu, n: Spu, r: u32) -> bool {
    &&& (n.ram@ == o.ram@)
    &&& (n.registers@ == o.registers@)
    &&& (n.control == o.control)
    &&& (({
        let a0 = o.transfer_address;
        let a1 = next_transfer_address(a0);
        let ram = o.ram@;
        &&& r == (ram[a0 as int] as u32) | ((ram[a0 + 1] as u32) << 8u32) | ((ram[a1 as int] as u32) << 16u32) | ((
        ram[a1 + 1] as u32) << 24u32)
        &&& n.transfer_address == next_transfer_address(a1)
        &&& n == (Spu { transfer_address: n.transfer_address, irq_flag: n.irq_flag, irq_edge_pending: n.irq_edge_pending, ..o })
        &&& (n.irq_flag, n.irq_edge_pending) == touched_twice(o, a0, a1)
    }))
}

/// The value `r` that a read of the SPU register at `offset` gives.
pub open spec fn spu_register_read(s: Spu, offset: u32, r: u16) -> bool {
    let o = offset & 0x3fe;
    if o < REG_MAIN_VOLUME_LEFT {
        r == s.voices[(o / 0x10) as int].register_value(o & 0x0f)
    } else if REG_INTERNAL_VOICE_START <= o < REG_INTERNAL_VOICE_START + 0x60 {
        let v = s.voices[((o - REG_INTERNAL_VOICE_START) / 4) as int];
        r == if o & 2 == 0 { v.volume_left.level as i16 as u16 } else { v.volume_right.level as i16 as u16 }
    } else if o == REG_ENDX_LOW {
        r == s.end_flags as u16
    } else if o == REG_ENDX_HIGH {
        r == (s.end_flags >> 16u32) as u16
    } else if o == REG_TRANSFER_FIFO {
        r == 0
    } else if o == REG_CONTROL {
        r == s.control
    } else if o == REG_STATUS {
        r == s.spec_status()
    } else if o == REG_CURRENT_MAIN_LEFT {
        r == s.main_volume_left.level as i16 as u16
    } else if o == REG_CURRENT_MAIN_RIGHT {
        r == s.main_volume_right.level as i16 as u16
    } else {
        r == s.registers@[(o / 2) as int]
    }
}

impl Spu {
    pub open spec fn wf(&self) -> bool {
        &&& self.registers@.len() == 0x200
        &&& self.ram@.len() == SPU_RAM_SIZE
        &&& self.output@.len() <= OUTPUT_CAPACITY
        &&& self.cd_input@.len() <= OUTPUT_CAPACITY
        &&& self.transfer_fifo@.len() <= 32
        &&& self.capture_offset <= 0x3ff
        &&& self.transfer_address < 0x8_0000
        &&& self.transfer_address % 2 == 0
        &&& -0x2_0000 <= self.noise_timer <= 0x2_0000
    }

    /// The interrupt address register in bytes.
    pub open spec fn spec_irq_address(&self) -> u32 {
        ((self.registers@[(REG_IRQ_ADDRESS / 2) as int] as u32) * 8) as u32
    }

    /// SPUSTAT: the applied mode bits, DMA request/busy bits for the
    /// transfer mode, the IRQ flag, and which capture half is being written.
    pub open spec fn spec_status(&self) -> u16 {
        let s0 = self.applied_control & 0x3f;
        let mode = (self.applied_control >> 4u16) & 3;
        let s1 = if mode == 2 { s0 | 0x0180 } else if mode == 3 { s0 | 0x0280 } else { s0 };
        let s2 = if self.irq_flag { s1 | 0x40 } else { s1 };
        if self.capture_offset & 0x200 != 0 { s2 | 0x0800 } else { s2 }
    }

    /// A RAM access at `address` raises the interrupt when enabled and not already raised.
    pub open spec fn after_touch(&self, address: u32) -> (bool, bool) {
        if address & !7u32 == self.spec_irq_address() & !7u32 && irq_enabled(self.control) && !self.irq_flag {
            (true, true)
        } else {
            (self.irq_flag, self.irq_edge_pending)
        }
    }

    /// Whether this sample's capture writes touch the interrupt address:
    /// one of the four capture halfwords falls in its 8-byte unit while the
    /// transfer control register enables capture interrupts.
    pub open spec fn capture_hits(&self) -> bool {
        let q = self.spec_irq_address();
        let c = self.capture_offset as int;
        &&& (hits_irq(c as u32, q) || hits_irq((0x400 + c) as u32, q) || hits_irq((0x800 + c) as u32, q) || hits_irq(
            (0xc00 + c) as u32,
            q,
        ))
        &&& self.registers@[(REG_TRANSFER_CONTROL / 2) as int] & 0x0c != 0
    }

    /// The 32 reverb configuration registers.
    pub open spec fn reverb_registers(&self) -> Seq<u16> {
        self.registers@.subrange(0xe0, 0x100)
    }

    pub fn new() -> (r: Self)
        ensures
            r.wf(),
            r.control == 0 && r.applied_control == 0 && r.end_flags == 0 && r.cycle_accumulator == 0,
            r.output@.len() == 0,
            r.cd_input@.len() == 0,
            r.transfer_address == 0,
            !r.irq_flag && !r.irq_edge_pending,
            r.registers@[(REG_TRANSFER_CONTROL / 2) as int] == 4,
            forall|i: int| 0 <= i < 0x200 && i != REG_TRANSFER_CONTROL / 2 ==> #[trigger] r.registers@[i] == 0,
            forall|i: int| 0 <= i < SPU_RAM_SIZE ==> #[trigger] r.ram@[i] == 0,
    {
        let mut registers: Vec<u16> = Vec::new();
        let mut i: usize = 0;
        while i < 0x200
            invariant
                i <= 0x200,
                registers@.len() == i,
                forall|j: int| 0 <= j < i ==> #[trigger] registers@[j] == 0,
            decreases 0x200 - i,
        {
            registers.push(0);
            i += 1;
        }
        registers.set((REG_TRANSFER_CONTROL / 2) as usize, 4);
        let mut ram: Vec<u8> = Vec::new();
        let mut k: usize = 0;
        while k < SPU_RAM_SIZE
            invariant
                k <= SPU_RAM_SIZE,
                ram@.len() == k,
                forall|j: int| 0 <= j < k ==> #[trigger] ram@[j] == 0,
            decreases SPU_RAM_SIZE - k,
        {
            ram.push(0);
            k += 1;
        }
        let v = Voice::new();
        Self {
            registers,
            ram,
            voices: [v;24],
            main_volume_left: VolumeEnvelope::new(),
            main_volume_right: VolumeEnvelope::new(),
            reverb: Reverb::new(),
            transfer_address: 0,
            transfer_fifo: VecDeque::new(),
            control: 0,
            applied_control: 0,
            end_flags: 0,
            cycle_accumulator: 0,
            output: VecDeque::new(),
            cd_input: VecDeque::new(),
            capture_offset: 0,
            noise_level: 1,
            noise_timer: 0,
            irq_flag: false,
            irq_edge_pending: false,
        }
    }

    /// Reads an SPU register (offset within the SPU's 1 KiB window).
    pub fn read16(&self, offset: u32) -> (r: u16)
        requires
            self.wf(),
        ensures
            spu_register_read(*self, offset, r),
    {
        let offset = offset & 0x3fe;
        if offset < REG_MAIN_VOLUME_LEFT {
            let voice = (offset / 0x10) as usize;
            return self.voices[voice].read_register(offset & 0x0f);
        }
        if REG_INTERNAL_VOICE_START <= offset && offset < REG_INTERNAL_VOICE_START + 0x60 {
            let voice = ((offset - REG_INTERNAL_VOICE_START) / 4) as usize;
            return if (offset & 2) == 0 {
                self.voices[voice].volume_left() as u16
            } else {
                self.voices[voice].volume_right() as u16
            };
        }
        if offset == REG_ENDX_LOW {
            self.end_flags as u16
        } else if offset == REG_ENDX_HIGH {
            (self.end_flags >> 16u32) as u16
        } else if offset == REG_TRANSFER_FIFO {
            0
        } else if offset == REG_CONTROL {
            self.control
        } else if offset == REG_STATUS {
            self.status()
        } else if offset == REG_CURRENT_MAIN_LEFT {
            self.main_volume_left.current() as u16
        } else if offset == REG_CURRENT_MAIN_RIGHT {
            self.main_volume_right.current() as u16
        } else {
            self.registers[(offset / 2) as usize]
        }
    }

    /// Writes an SPU register.  Voice registers go to the voice; the others
    /// are stored and may act: volumes, key on/off, reverb base, transfer
    /// address and FIFO, and SPUCNT.
    pub fn write16(&mut self, offset: u32, value: u16)
        requires
            old(self).wf(),
        ensures
            final(self).wf(),
            spu_register_written(*old(self), offset, value, *final(self)),
    {
        let offset = offset & 0x3fe;
        if offset < REG_MAIN_VOLUME_LEFT {
            let index = (offset / 0x10) as usize;
            let mut voice = self.voices[index];
            voice.write_register(offset & 0x0f, value);
            self.voices[index] = voice;
            return;
        }
        self.registers.set((offset / 2) as usize, value);
        if offset == REG_MAIN_VOLUME_LEFT {
            self.main_volume_left.write(value);
        } else if offset == REG_MAIN_VOLUME_RIGHT {
            self.main_volume_right.write(value);
        } else if offset == REG_KEY_ON_LOW || offset == REG_KEY_ON_HIGH {
            self.key_on(write_mask(offset, value));
        } else if offset == REG_KEY_OFF_LOW || offset == REG_KEY_OFF_HIGH {
            self.key_off(write_mask(offset, value));
        } else if offset == REG_REVERB_BASE {
            self.reverb.set_base(value);
        } else if offset == REG_TRANSFER_ADDRESS {
            self.transfer_address = (value as u32) * 8;
        } else if offset == REG_TRANSFER_FIFO {
            self.write_transfer_fifo(value);
        } else if offset == REG_CONTROL {
            self.write_control(value);
        }
    }

    /// DMA4 to sound RAM: two halfwords at the transfer address.
    pub fn dma_write32(&mut self, value: u32)
        requires
            old(self).wf(),
        ensures
            final(self).wf(),
            spu_dma_written(*old(self), value, *final(self)),
    {
        self.write_ram_halfword(value as u16);
        self.write_ram_halfword((value >> 16u32) as u16);
        assert((value as u16) as u8 == value as u8 && ((value as u16) >> 8u16) as u8 == (value >> 8u32) as u8
            && (value >> 16u32) as u16 as u8 == (value >> 16u32) as u8 && (((value >> 16u32) as u16) >> 8u16) as u8
            == (value >> 24u32) as u8) by (bit_vector);
    }

    /// DMA4 from sound RAM: two halfwords from the transfer address.
    pub fn dma_read32(&mut self) -> (r: u32)
        requires
            old(self).wf(),
        ensures
            final(self).wf(),
            spu_dma_read(*old(self), *final(self), r),
    {
        let low = self.read_ram_halfword() as u32;
        let high = self.read_ram_halfword() as u32;
        let ghost a0 = old(self).transfer_address;
        let ghost a1 = next_transfer_address(a0);
        let ghost x0 = old(self).ram@[a0 as int];
        let ghost x1 = old(self).ram@[a0 + 1];
        let ghost x2 = old(self).ram@[a1 as int];
        let ghost x3 = old(self).ram@[a1 + 1];
        assert(((x0 as u16 | ((x1 as u16) << 8u16)) as u32) | (((x2 as u16 | ((x3 as u16) << 8u16)) as u32) << 16u32)
            == (x0 as u32) | ((x1 as u32) << 8u32) | ((x2 as u32) << 16u32) | ((x3 as u32) << 24u32)) by (bit_vector);
        low | (high << 16u32)
    }

    /// Advances by `cycles` CPU cycles, producing one stereo frame per 768
    /// cycles.  Returns whether an SPU interrupt edge occurred since the last
    /// call, and consumes it.
    pub fn tick(&mut self, cycles: u32) -> (r: bool)
        requires
            old(self).wf(),
        ensures
            final(self).wf(),
            spu_ticked(*old(self), cycles, *final(self), r),
    {
        let ghost acc = tick_total(old(self).cycle_accumulator, cycles);
        let ghost mut done: int = 0;
        self.cycle_accumulator = self.cycle_accumulator.saturating_add(cycles);
        let ghost mut states: Seq<Spu> = seq![*self];
        while self.cycle_accumulator >= SPU_CYCLES_PER_SAMPLE
            invariant
                states.len() == done + 1,
                states[done] == *self,
                states[0] == (Spu { cycle_accumulator: states[0].cycle_accumulator, ..*old(self) }),
                forall|i: int|
                    0 <= i < done ==> #[trigger] frame_link(states, i),
                self.wf(),
                acc == tick_total(old(self).cycle_accumulator, cycles),
                0 <= done,
                acc == self.cycle_accumulator + 768 * done,
                self.control == old(self).control,
                self.registers@ == old(self).registers@,
                done == 0 ==> *self == (Spu { cycle_accumulator: self.cycle_accumulator, ..*old(self) }),
                old(self).output@.len() + 2 * (done + self.cycle_accumulator / 768) <= OUTPUT_CAPACITY
                    ==> self.output@.len() == old(self).output@.len() + 2 * done,
                !irq_enabled(old(self).control) ==> self.irq_flag == old(self).irq_flag
                    && self.irq_edge_pending == old(self).irq_edge_pending,
            decreases self.cycle_accumulator,
        {
            let ghost start = *self;
            self.produce_sample();
            assert(sample_step(start, *self)) by {
                reveal(sample_step);
            }
            let ghost produced = *self;
            self.cycle_accumulator = self.cycle_accumulator - SPU_CYCLES_PER_SAMPLE;
            proof {
                assert(produced == (Spu { cycle_accumulator: start.cycle_accumulator, ..*self }));
                let prev = states;
                states = states.push(*self);
                assert(frame_link(states, done));
                assert forall|i: int| 0 <= i < done + 1 implies #[trigger] frame_link(states, i) by {
                    if i < done {
                        assert(frame_link(prev, i));
                        assert(states[i] == prev[i] && states[i + 1] == prev[i + 1]);
                    }
                }
                done = done + 1;
            }
        }
        proof {
            vstd::arithmetic::div_mod::lemma_fundamental_div_mod_converse(acc, 768, done, self.cycle_accumulator as int);
        }
        let edge = self.irq_edge_pending;
        self.irq_edge_pending = false;
        edge
    }

    /// Moves up to `out.len()` queued samples into `out`, oldest first, and
    /// zero-fills the rest.  Returns how many samples were moved.
    pub fn drain_audio(&mut self, out: &mut [i16]) -> (r: usize)
        requires
            old(self).wf(),
        ensures
            final(self).wf(),
            r == if old(out)@.len() < old(self).output@.len() { old(out)@.len() } else { old(self).output@.len() as nat },
            final(out)@.len() == old(out)@.len(),
            forall|i: int| 0 <= i < r ==> #[trigger] final(out)@[i] == old(self).output@[i],
            forall|i: int| r <= i < old(out)@.len() ==> #[trigger] final(out)@[i] == 0,
            final(self).output@ == old(self).output@.subrange(r as int, old(self).output@.len() as int),
            final(self).ram@ == old(self).ram@,
            *final(self) == (Spu { output: final(self).output, ..*old(self) }),
    {
        let count = if out.len() < self.output.len() {
            out.len()
        } else {
            self.output.len()
        };
        let mut i: usize = 0;
        while i < out.len()
            invariant
                self.wf(),
                0 <= i <= out@.len(),
                out@.len() == old(out)@.len(),
                count <= out@.len(),
                count <= old(self).output@.len(),
                count == if old(out)@.len() < old(self).output@.len() { old(out)@.len() } else { old(self).output@.len() as nat },
                i <= count ==> self.output@ == old(self).output@.subrange(i as int, old(self).output@.len() as int),
                i > count ==> self.output@ == old(self).output@.subrange(count as int, old(self).output@.len() as int),
                forall|j: int| 0 <= j < i && j < count ==> #[trigger] out@[j] == old(self).output@[j],
                forall|j: int| count <= j < i ==> #[trigger] out@[j] == 0,
                self.ram@ == old(self).ram@,
                *self == (Spu { output: self.output, ..*old(self) }),
            decreases out@.len() - i,
        {
            if i < count {
                let sample = match self.output.pop_front() {
                    Some(s) => s,
                    None => 0,
                };
                out[i] = sample;
            } else {
                out[i] = 0;
            }
            i += 1;
        }
        count
    }

    pub fn queued_samples(&self) -> (r: usize)
        ensures
            r == self.output@.len(),
    {
        self.output.len()
    }

    /// Queues one stereo CD-audio frame; the oldest frames are dropped beyond
    /// one second of input.
    pub fn push_cd_sample(&mut self, left: i16, right: i16)
        requires
            old(self).wf(),
        ensures
            final(self).wf(),
            final(self).cd_input@.len() >= 2,
            final(self).cd_input@[final(self).cd_input@.len() - 2] == left,
            final(self).cd_input@[final(self).cd_input@.len() - 1] == right,
            final(self).ram@ == old(self).ram@,
            final(self).output@ == old(self).output@,
    {
        self.cd_input.push_back(left);
        self.cd_input.push_back(right);
        while self.cd_input.len() > OUTPUT_CAPACITY
            invariant
                self.cd_input@.len() >= 2,
                self.cd_input@.len() <= OUTPUT_CAPACITY + 2,
                self.cd_input@[self.cd_input@.len() - 2] == left,
                self.cd_input@[self.cd_input@.len() - 1] == right,
                old(self).wf(),
                *self == (Spu { cd_input: self.cd_input, ..*old(self) }),
            decreases self.cd_input@.len(),
        {
            self.cd_input.pop_front();
            self.cd_input.pop_front();
        }
    }

    pub fn ram(&self) -> (r: &[u8])
        ensures
            r@ == self.ram@,
    {
        self.ram.as_slice()
    }

    pub fn irq_pending(&self) -> (r: bool)
        ensures
            r == self.irq_flag,
    {
        self.irq_flag
    }

    fn status(&self) -> (r: u16)
        ensures
            r == self.spec_status(),
    {
        let mut status = self.applied_control & 0x3f;
        let transfer_mode = (self.applied_control >> 4u16) & 3;
        if transfer_mode == 2 {
            status = status | 0x0180;
        } else if transfer_mode == 3 {
            status = status | 0x0280;
        }
        if self.irq_flag {
            status = status | 0x40;
        }
        if (self.capture_offset & 0x200) != 0 {
            status = status | 0x0800;
        }
        status
    }

    /// SPUCNT; clearing either enable bit acknowledges the interrupt.
    fn write_control(&mut self, value: u16)
        requires
            old(self).wf(),
        ensures
            final(self).wf(),
            final(self).control == value,
            !irq_enabled(value) ==> !final(self).irq_flag && !final(self).irq_edge_pending,
            irq_enabled(value) ==> final(self).irq_flag == old(self).irq_flag && final(self).irq_edge_pending
                == old(self).irq_edge_pending,
            final(self).registers@ == old(self).registers@,
            final(self).ram@ == old(self).ram@,
            final(self).transfer_fifo == old(self).transfer_fifo,
            *final(self) == (Spu {
                control: value,
                irq_flag: final(self).irq_flag,
                irq_edge_pending: final(self).irq_edge_pending,
                ..*old(self)
            }),
    {
        self.control = value;
        if (value & 0x8040) != 0x8040 {
            self.irq_flag = false;
            self.irq_edge_pending = false;
        }
    }

    fn key_on(&mut self, mask: u32)
        requires
            old(self).wf(),
        ensures
            final(self).wf(),
            final(self).end_flags == old(self).end_flags & !(mask & 0x00ff_ffff),
            final(self).registers@ == old(self).registers@,
            final(self).ram@ == old(self).ram@,
            final(self).transfer_fifo == old(self).transfer_fifo,
            final(self).control == old(self).control,
            final(self).irq_flag == old(self).irq_flag,
            final(self).transfer_address == old(self).transfer_address,
            *final(self) == (Spu { voices: final(self).voices, end_flags: final(self).end_flags, ..*old(self) }),
            forall|j: int|
                0 <= j < 24 ==> if mask & 0x00ff_ffff & (1u32 << (j as u32)) != 0 {
                    keyed_on(old(self).voices[j], #[trigger] final(self).voices[j])
                } else {
                    final(self).voices[j] == old(self).voices[j]
                },
    {
        let mask = mask & 0x00ff_ffff;
        self.end_flags = self.end_flags & !mask;
        let mut voice: usize = 0;
        while voice < VOICE_COUNT
            invariant
                self.wf(),
                voice <= VOICE_COUNT,
                *self == (Spu { voices: self.voices, end_flags: self.end_flags, ..*old(self) }),
                forall|j: int|
                    0 <= j < voice ==> if mask & (1u32 << (j as u32)) != 0 {
                        keyed_on(old(self).voices[j], #[trigger] self.voices[j])
                    } else {
                        self.voices[j] == old(self).voices[j]
                    },
                forall|j: int| voice <= j < 24 ==> #[trigger] self.voices[j] == old(self).voices[j],
                self.end_flags == old(self).end_flags & !mask,
                self.registers@ == old(self).registers@,
                self.ram@ == old(self).ram@,
                self.transfer_fifo == old(self).transfer_fifo,
                self.control == old(self).control,
                self.irq_flag == old(self).irq_flag,
                self.transfer_address == old(self).transfer_address,
            decreases VOICE_COUNT - voice,
        {
            if (mask & (1u32 << (voice as u32))) != 0 {
                let mut v = self.voices[voice];
                v.key_on();
                self.voices[voice] = v;
            }
            voice += 1;
        }
    }

    /// Key off: each voice whose bit is set in `mask` moves to release.
    fn key_off(&mut self, mask: u32)
        requires
            old(self).wf(),
        ensures
            final(self).wf(),
            *final(self) == (Spu { voices: final(self).voices, ..*old(self) }),
            forall|j: int|
                0 <= j < 24 ==> #[trigger] final(self).voices[j] == if mask & (1u32 << (j as u32)) != 0 {
                    keyed_off(old(self).voices[j])
                } else {
                    old(self).voices[j]
                },
            final(self).registers@ == old(self).registers@,
            final(self).ram@ == old(self).ram@,
            final(self).transfer_fifo == old(self).transfer_fifo,
            final(self).control == old(self).control,
            final(self).irq_flag == old(self).irq_flag,
            final(self).transfer_address == old(self).transfer_address,
    {
        let mut voice: usize = 0;
        while voice < VOICE_COUNT
            invariant
                self.wf(),
                voice <= VOICE_COUNT,
                *self == (Spu { voices: self.voices, ..*old(self) }),
                forall|j: int|
                    0 <= j < voice ==> #[trigger] self.voices[j] == if mask & (1u32 << (j as u32)) != 0 {
                        keyed_off(old(self).voices[j])
                    } else {
                        old(self).voices[j]
                    },
                forall|j: int| voice <= j < 24 ==> #[trigger] self.voices[j] == old(self).voices[j],
                self.registers@ == old(self).registers@,
                self.ram@ == old(self).ram@,
                self.transfer_fifo == old(self).transfer_fifo,
                self.control == old(self).control,
                self.irq_flag == old(self).irq_flag,
                self.transfer_address == old(self).transfer_address,
            decreases VOICE_COUNT - voice,
        {
            if (mask & (1u32 << (voice as u32))) != 0 {
                let mut v = self.voices[voice];
                v.key_off();
                self.voices[voice] = v;
            }
            voice += 1;
        }
    }

    /// The manual-transfer FIFO holds 32 halfwords; a full FIFO drops its oldest.
    fn write_transfer_fifo(&mut self, value: u16)
        requires
            old(self).wf(),
        ensures
            final(self).wf(),
            final(self).transfer_fifo@ == if old(self).transfer_fifo@.len() == 32 {
                old(self).transfer_fifo@.drop_first().push(value)
            } else {
                old(self).transfer_fifo@.push(value)
            },
            final(self).registers@ == old(self).registers@,
            final(self).ram@ == old(self).ram@,
            final(self).control == old(self).control,
            final(self).irq_flag == old(self).irq_flag,
            final(self).transfer_address == old(self).transfer_address,
            *final(self) == (Spu { transfer_fifo: final(self).transfer_fifo, ..*old(self) }),
    {
        if self.transfer_fifo.len() == 32 {
            self.transfer_fifo.pop_front();
        }
        self.transfer_fifo.push_back(value);
    }

    /// Writes the FIFO into sound RAM, applying the transfer type's fill rule.
    fn flush_transfer_fifo(&mut self)
        requires
            old(self).wf(),
        ensures
            final(self).wf(),
            final(self).transfer_fifo@.len() == 0,
            *final(self) == (Spu {
                ram: final(self).ram,
                transfer_fifo: final(self).transfer_fifo,
                transfer_address: final(self).transfer_address,
                irq_flag: final(self).irq_flag,
                irq_edge_pending: final(self).irq_edge_pending,
                ..*old(self)
            }),
            ({
                let out = transfer_output_spec(
                    old(self).transfer_fifo@,
                    (old(self).registers@[(REG_TRANSFER_CONTROL / 2) as int] >> 1u16) & 7,
                );
                let w = halfword_writes(old(self).ram@, old(self).transfer_address, old(self).spec_irq_address(), out);
                &&& final(self).ram@ == w.0
                &&& final(self).transfer_address == w.1
                &&& (final(self).irq_flag, final(self).irq_edge_pending) == raised_flags(
                    old(self).irq_flag,
                    old(self).irq_edge_pending,
                    old(self).control,
                    w.2,
                )
            }),
            !irq_enabled(old(self).control) ==> final(self).irq_flag == old(self).irq_flag
                && final(self).irq_edge_pending == old(self).irq_edge_pending,
    {
        if self.transfer_fifo.len() == 0 {
            return;
        }
        let mut input: Vec<u16> = Vec::new();
        while self.transfer_fifo.len() > 0
            invariant
                self.wf(),
                *self == (Spu { transfer_fifo: self.transfer_fifo, ..*old(self) }),
                input@.len() + self.transfer_fifo@.len() <= 32,
                input@ + self.transfer_fifo@ == old(self).transfer_fifo@,
            decreases self.transfer_fifo@.len(),
        {
            let ghost before = self.transfer_fifo@;
            match self.transfer_fifo.pop_front() {
                Some(v) => {
                    input.push(v);
                    assert(input@ + self.transfer_fifo@ =~= old(self).transfer_fifo@);
                },
                None => {},
            }
        }
        assert(input@ =~= old(self).transfer_fifo@);
        let transfer_type = (self.registers[(REG_TRANSFER_CONTROL / 2) as usize] >> 1u16) & 7;
        let output: Vec<u16> = if transfer_type == 2 {
            input
        } else if transfer_type == 3 {
            repeat_groups(&input, 2, 0)
        } else if transfer_type == 4 {
            repeat_groups(&input, 4, 0)
        } else if transfer_type == 5 {
            repeat_groups(&input, 8, 7)
        } else {
            let last = if input.len() > 0 {
                input[input.len() - 1]
            } else {
                0
            };
            let mut filled: Vec<u16> = Vec::new();
            let mut j: usize = 0;
            while j < input.len()
                invariant
                    j <= input@.len(),
                    input@.len() > 0,
                    filled@.len() == j,
                    last == input@.last(),
                    forall|i: int| 0 <= i < j ==> #[trigger] filled@[i] == last,
                decreases input@.len() - j,
            {
                filled.push(last);
                j += 1;
            }
            filled
        };
        let ghost tt = (old(self).registers@[(REG_TRANSFER_CONTROL / 2) as int] >> 1u16) & 7;
        assert(output@ =~= transfer_output_spec(input@, tt));
        let ghost q = old(self).spec_irq_address();
        let mut k: usize = 0;
        assert(output@.take(0) =~= Seq::<u16>::empty());
        while k < output.len()
            invariant
                self.wf(),
                old(self).wf(),
                self.transfer_fifo@.len() == 0,
                *self == (Spu {
                    ram: self.ram,
                    transfer_fifo: self.transfer_fifo,
                    transfer_address: self.transfer_address,
                    irq_flag: self.irq_flag,
                    irq_edge_pending: self.irq_edge_pending,
                    ..*old(self)
                }),
                k <= output@.len(),
                q == old(self).spec_irq_address(),
                ({
                    let w = halfword_writes(old(self).ram@, old(self).transfer_address, q, output@.take(k as int));
                    &&& self.ram@ == w.0
                    &&& self.transfer_address == w.1
                    &&& (self.irq_flag, self.irq_edge_pending) == raised_flags(
                        old(self).irq_flag,
                        old(self).irq_edge_pending,
                        old(self).control,
                        w.2,
                    )
                }),
            decreases output@.len() - k,
        {
            assert(output@.take(k + 1).drop_last() =~= output@.take(k as int));
            self.write_ram_halfword(output[k]);
            k += 1;
        }
        assert(output@.take(output@.len() as int) =~= output@);
    }

    fn write_ram_halfword(&mut self, value: u16)
        requires
            old(self).wf(),
        ensures
            final(self).wf(),
            ({
                let a = old(self).transfer_address;
                &&& final(self).ram@ == old(self).ram@.update(a as int, value as u8).update(a + 1, (value >> 8u16) as u8)
                &&& (final(self).irq_flag, final(self).irq_edge_pending) == old(self).after_touch(a)
            }),
            final(self).transfer_address == next_transfer_address(old(self).transfer_address),
            *final(self) == (Spu {
                ram: final(self).ram,
                transfer_address: final(self).transfer_address,
                irq_flag: final(self).irq_flag,
                irq_edge_pending: final(self).irq_edge_pending,
                ..*old(self)
            }),
    {
        proof {
            crate::bits::lemma_spu_address(self.transfer_address);
        }
        let address = self.transfer_address & SPU_RAM_MASK & !1u32;
        self.ram.set(address as usize, value as u8);
        self.ram.set(((address + 1) % 0x8_0000) as usize, (value >> 8u16) as u8);
        self.touch_irq(address);
        self.transfer_address = self.transfer_address.wrapping_add(2) & SPU_RAM_MASK;
    }

    fn read_ram_halfword(&mut self) -> (r: u16)
        requires
            old(self).wf(),
        ensures
            final(self).wf(),
            ({
                let a = old(self).transfer_address;
                &&& r == (old(self).ram@[a as int] as u16) | ((old(self).ram@[a + 1] as u16) << 8u16)
                &&& (final(self).irq_flag, final(self).irq_edge_pending) == old(self).after_touch(a)
            }),
            final(self).transfer_address == next_transfer_address(old(self).transfer_address),
            *final(self) == (Spu {
                transfer_address: final(self).transfer_address,
                irq_flag: final(self).irq_flag,
                irq_edge_pending: final(self).irq_edge_pending,
                ..*old(self)
            }),
    {
        proof {
            crate::bits::lemma_spu_address(self.transfer_address);
        }
        let address = self.transfer_address & SPU_RAM_MASK & !1u32;
        let lo = self.ram[address as usize] as u16;
        let hi = self.ram[((address + 1) % 0x8_0000) as usize] as u16;
        self.touch_irq(address);
        self.transfer_address = self.transfer_address.wrapping_add(2) & SPU_RAM_MASK;
        lo | (hi << 8u16)
    }

    /// One output frame: latch SPUCNT, commit a manual transfer, advance the
    /// main volumes and noise, run the 24 voices (with pitch modulation, noise
    /// selection, end flags and reverb sends), write the four capture buffers,
    /// mix CD audio and the reverb return, and queue the stereo result.
    #[verifier::spinoff_prover]
    #[verifier::rlimit(40)]
    fn produce_sample(&mut self)
        requires
            old(self).wf(),
        ensures
            final(self).wf(),
            final(self).applied_control == old(self).control,
            final(self).control == old(self).control,
            final(self).registers@ == old(self).registers@,
            final(self).cycle_accumulator == old(self).cycle_accumulator,
            final(self).capture_offset == ((old(self).capture_offset + 2) as u16) & 0x3ff,
            final(self).main_volume_left == volume_tick_spec(old(self).main_volume_left),
            final(self).main_volume_right == volume_tick_spec(old(self).main_volume_right),
            final(self).cd_input@ == old(self).cd_input@.skip(
                if old(self).cd_input@.len() < 2 { old(self).cd_input@.len() as int } else { 2 },
            ),
            (final(self).noise_level, final(self).noise_timer) == noise_step_spec(
                old(self).noise_level,
                old(self).noise_timer,
                old(self).control,
            ),
            (old(self).control >> 4u16) & 3 == 1 ==> final(self).transfer_fifo@.len() == 0,
            (old(self).control >> 4u16) & 3 != 1 ==> final(self).transfer_fifo == old(self).transfer_fifo,
            ({
                let o = *old(self);
                let c = o.control;
                let regs = o.registers@;
                let q = o.spec_irq_address();
                let flush = (c >> 4u16) & 3 == 1;
                let fw = halfword_writes(o.ram@, o.transfer_address, q, transfer_output_spec(
                    o.transfer_fifo@,
                    (regs[(REG_TRANSFER_CONTROL / 2) as int] >> 1u16) & 7,
                ));
                let ram1 = if flush { fw.0 } else { o.ram@ };
                let noise = noise_step_spec(o.noise_level, o.noise_timer, c).0;
                let f = mix_fold(o.voices, regs, noise, o.end_flags, q, final(self).voices, 24);
                let cd_left: i16 = if o.cd_input@.len() > 0 { o.cd_input@[0] } else { 0 };
                let cd_right: i16 = if o.cd_input@.len() > 1 { o.cd_input@[1] } else { 0 };
                let ram2 = captured_ram(ram1, o.capture_offset, cd_left, cd_right, f.5, f.6);
                let cdl = reverb_multiply(cd_left as i32, regs[(REG_CD_VOLUME_LEFT / 2) as int] as i16 as i32);
                let cdr = reverb_multiply(cd_right as i32, regs[(REG_CD_VOLUME_RIGHT / 2) as int] as i16 as i32);
                let cd_send = c & 1 != 0 && c & 4 != 0;
                let send_l = if cd_send { sat_add_i32(f.3, cdl) } else { f.3 };
                let send_r = if cd_send { sat_add_i32(f.4, cdr) } else { f.4 };
                let p = o.reverb.process_spec(ram2, o.reverb_registers(), [send_l, send_r], c & 0x80 != 0);
                let wet16: (i16, i16) = if o.reverb.second_half_tick {
                    (o.reverb.last_output[0], o.reverb.last_output[1])
                } else {
                    (clamp_i16_spec(p.1), clamp_i16_spec(p.2))
                };
                let wet_l = reverb_multiply(wet16.0 as i32, regs[(REG_REVERB_VOLUME_LEFT / 2) as int] as i16 as i32);
                let wet_r = reverb_multiply(wet16.1 as i32, regs[(REG_REVERB_VOLUME_RIGHT / 2) as int] as i16 as i32);
                let vol_l = volume_tick_spec(o.main_volume_left).level as i16;
                let vol_r = volume_tick_spec(o.main_volume_right).level as i16;
                &&& voices_stepped(o.voices, regs, noise, o.end_flags, q, ram1, final(self).voices)
                &&& final(self).end_flags == f.8
                &&& final(self).ram@ == if o.reverb.second_half_tick { ram2 } else { p.0 }
                &&& reverb_after(o.reverb, final(self).reverb, wet16)
                &&& final(self).transfer_address == if flush { fw.1 } else { o.transfer_address }
                &&& final(self).output@ == pushed_frame(
                    o.output@,
                    output_sample(c, cdl, f.1, wet_l, vol_l),
                    output_sample(c, cdr, f.2, wet_r, vol_r),
                )
                &&& (final(self).irq_flag, final(self).irq_edge_pending) == raised_flags(
                    o.irq_flag,
                    o.irq_edge_pending,
                    c,
                    (flush && fw.2) || f.7 || o.capture_hits() || (!o.reverb.second_half_tick && o.reverb.touches_irq(
                        o.reverb_registers(),
                        q,
                        c & 0x80 != 0,
                    )),
                )
            }),
            final(self).output@.len() == if old(self).output@.len() + 2 > OUTPUT_CAPACITY {
                old(self).output@.len()
            } else {
                old(self).output@.len() + 2
            },
            (old(self).control & 0xc000) != 0xc000 && (old(self).control & 1) == 0 ==> final(self).output@
                == pushed_frame(old(self).output@, 0, 0),
            !irq_enabled(old(self).control) ==> final(self).irq_flag == old(self).irq_flag
                && final(self).irq_edge_pending == old(self).irq_edge_pending,
    {
        self.applied_control = self.control;
        if ((self.applied_control >> 4u16) & 3) == 1 {
            self.flush_transfer_fifo();
        }
        self.main_volume_left.tick();
        self.main_volume_right.tick();
        self.update_noise();
        let irq_address = self.irq_address();
        let (mut voice_mix_left, mut voice_mix_right, mut reverb_left, mut reverb_right, capture_voice1, capture_voice3) =
            self.mix_voices(irq_address);
        let cd_left_sample = match self.cd_input.pop_front() {
            Some(s) => s,
            None => 0,
        };
        let cd_right_sample = match self.cd_input.pop_front() {
            Some(s) => s,
            None => 0,
        };
        self.write_captures(cd_left_sample, cd_right_sample, capture_voice1, capture_voice3);

        let mut cd_mix_left: i64 = 0;
        let mut cd_mix_right: i64 = 0;
        if (self.applied_control & 1) != 0 {
            let cd_left = multiply(
                cd_left_sample as i32,
                self.registers[(REG_CD_VOLUME_LEFT / 2) as usize] as i16 as i32,
            );
            let cd_right = multiply(
                cd_right_sample as i32,
                self.registers[(REG_CD_VOLUME_RIGHT / 2) as usize] as i16 as i32,
            );
            cd_mix_left = cd_left as i64;
            cd_mix_right = cd_right as i64;
            if (self.applied_control & 4) != 0 {
                reverb_left = sat_add_i32_exec(reverb_left, cd_left);
                reverb_right = sat_add_i32_exec(reverb_right, cd_right);
            }
        }
        let (wet_left, wet_right) = self.run_reverb(reverb_left, reverb_right, irq_address);
        voice_mix_left = voice_mix_left + wet_left as i64;
        voice_mix_right = voice_mix_right + wet_right as i64;
        if (self.applied_control & 0xc000) == 0xc000 {
            cd_mix_left = cd_mix_left + voice_mix_left;
            cd_mix_right = cd_mix_right + voice_mix_right;
        }
        let left = multiply_wide(cd_mix_left, self.main_volume_left.current() as i32);
        let right = multiply_wide(cd_mix_right, self.main_volume_right.current() as i32);
        self.push_output(clamp_i16(left), clamp_i16(right));
        self.capture_offset = (self.capture_offset + 2) & 0x03ff;
    }

    /// Runs the 24 voices for one sample.  Returns the dry stereo mix, the
    /// reverb sends, and the outputs of voices 1 and 3 for the capture buffers.
    fn mix_voices(&mut self, irq_address: u32) -> (r: (i64, i64, i32, i32, i16, i16))
        requires
            old(self).wf(),
        ensures
            final(self).wf(),
            *final(self) == (Spu {
                voices: final(self).voices,
                end_flags: final(self).end_flags,
                irq_flag: final(self).irq_flag,
                irq_edge_pending: final(self).irq_edge_pending,
                ..*old(self)
            }),
            -0x30_0000_0000 <= r.0 <= 0x30_0000_0000,
            -0x30_0000_0000 <= r.1 <= 0x30_0000_0000,
            ({
                let o = *old(self);
                let f = mix_fold(o.voices, o.registers@, o.noise_level, o.end_flags, irq_address, final(self).voices, 24);
                &&& forall|j: int| 0 <= j < 24 ==> voice_step_ok(o.voices, o.registers@, o.noise_level, o.end_flags, irq_address, o.ram@, final(self).voices, j)
                &&& r.0 == f.1 && r.1 == f.2 && r.2 == f.3 && r.3 == f.4 && r.4 == f.5 && r.5 == f.6
                &&& final(self).end_flags == f.8
                &&& (final(self).irq_flag, final(self).irq_edge_pending) == raised_flags(o.irq_flag, o.irq_edge_pending, o.control, f.7)
            }),
            !irq_enabled(old(self).control) ==> final(self).irq_flag == old(self).irq_flag
                && final(self).irq_edge_pending == old(self).irq_edge_pending,
    {
        let ghost o = *self;
        let pitch_modulation = self.flag_register(REG_PITCH_MOD_LOW);
        let noise_mode = self.flag_register(REG_NOISE_LOW);
        let reverb_mode = self.flag_register(REG_REVERB_ON_LOW);
        let noise = self.noise_level as i16;
        let mut previous_output: i16 = 0;
        let mut mix_left: i64 = 0;
        let mut mix_right: i64 = 0;
        let mut send_left: i32 = 0;
        let mut send_right: i32 = 0;
        let mut capture1: i16 = 0;
        let mut capture3: i16 = 0;
        let mut voice_irq = false;
        let mut index: usize = 0;
        while index < VOICE_COUNT
            invariant
                self.wf(),
                index <= VOICE_COUNT,
                *self == (Spu { voices: self.voices, end_flags: self.end_flags, ..o }),
                -0x8000_0000 * index <= mix_left <= 0x8000_0000 * index,
                -0x8000_0000 * index <= mix_right <= 0x8000_0000 * index,
                pitch_modulation == flag_word(o.registers@, REG_PITCH_MOD_LOW),
                noise_mode == flag_word(o.registers@, REG_NOISE_LOW),
                reverb_mode == flag_word(o.registers@, REG_REVERB_ON_LOW),
                noise == o.noise_level as i16,
                o.ram@.len() == SPU_RAM_SIZE,
                forall|j: int| index <= j < 24 ==> self.voices[j] == o.voices[j],
                forall|j: int| 0 <= j < index ==> voice_step_ok(o.voices, o.registers@, o.noise_level, o.end_flags, irq_address, o.ram@, self.voices, j),
                ({
                    let f = mix_fold(o.voices, o.registers@, o.noise_level, o.end_flags, irq_address, self.voices, index as nat);
                    &&& previous_output == f.0
                    &&& mix_left == f.1 && mix_right == f.2
                    &&& send_left == f.3 && send_right == f.4
                    &&& capture1 == f.5 && capture3 == f.6
                    &&& voice_irq == f.7
                    &&& self.end_flags == f.8
                }),
            decreases VOICE_COUNT - index,
        {
            let ghost before = self.voices;
            let modulator = if index != 0 && (pitch_modulation & (1u32 << (index as u32))) != 0 {
                Some(previous_output)
            } else {
                None
            };
            let noise_sample = if (noise_mode & (1u32 << (index as u32))) != 0 {
                Some(noise)
            } else {
                None
            };
            let mut voice = self.voices[index];
            let tick = voice.tick(self.ram.as_slice(), irq_address, modulator, noise_sample);
            self.voices[index] = voice;
            proof {
                lemma_mix_fold_prefix(o.voices, o.registers@, o.noise_level, o.end_flags, irq_address, before, self.voices, index as nat);
                assert forall|j: int| 0 <= j < index implies voice_step_ok(o.voices, o.registers@, o.noise_level, o.end_flags, irq_address, o.ram@, self.voices, j) by {
                    lemma_mix_fold_prefix(o.voices, o.registers@, o.noise_level, o.end_flags, irq_address, before, self.voices, j as nat);
                    assert(self.voices[j] == before[j]);
                    assert(voice_step_ok(o.voices, o.registers@, o.noise_level, o.end_flags, irq_address, o.ram@, before, j));
                }
                assert(voice_step_ok(o.voices, o.registers@, o.noise_level, o.end_flags, irq_address, o.ram@, self.voices, index as int));
            }
            previous_output = tick.output;
            voice_irq = voice_irq || tick.irq;
            if tick.end_reached {
                self.end_flags = self.end_flags | (1u32 << (index as u32));
            }
            if index == 1 {
                capture1 = tick.output;
            } else if index == 3 {
                capture3 = tick.output;
            }
            let left = multiply(tick.output as i32, voice.volume_left() as i32);
            let right = multiply(tick.output as i32, voice.volume_right() as i32);
            mix_left = mix_left + left as i64;
            mix_right = mix_right + right as i64;
            if (reverb_mode & (1u32 << (index as u32))) != 0 {
                send_left = sat_add_i32_exec(send_left, left);
                send_right = sat_add_i32_exec(send_right, right);
            }
            index += 1;
        }
        if voice_irq {
            self.raise_irq();
        }
        (mix_left, mix_right, send_left, send_right, capture1, capture3)
    }

    fn write_captures(&mut self, cd_left: i16, cd_right: i16, voice1: i16, voice3: i16)
        requires
            old(self).wf(),
        ensures
            final(self).wf(),
            final(self).ram@ == captured_ram(old(self).ram@, old(self).capture_offset, cd_left, cd_right, voice1, voice3),
            *final(self) == (Spu {
                ram: final(self).ram,
                irq_flag: final(self).irq_flag,
                irq_edge_pending: final(self).irq_edge_pending,
                ..*old(self)
            }),
            (final(self).irq_flag, final(self).irq_edge_pending) == raised_flags(
                old(self).irq_flag,
                old(self).irq_edge_pending,
                old(self).control,
                old(self).capture_hits(),
            ),
            !irq_enabled(old(self).control) ==> final(self).irq_flag == old(self).irq_flag
                && final(self).irq_edge_pending == old(self).irq_edge_pending,
    {
        let hit0 = self.write_capture(0x000, cd_left);
        let hit1 = self.write_capture(0x400, cd_right);
        let hit2 = self.write_capture(0x800, voice1);
        let hit3 = self.write_capture(0xc00, voice3);
        if hit0 || hit1 || hit2 || hit3 {
            self.raise_irq();
        }
    }

    /// Feeds the reverb sends through the reverb unit and returns its output
    /// scaled by the reverb output volumes.
    fn run_reverb(&mut self, send_left: i32, send_right: i32, irq_address: u32) -> (r: (i32, i32))
        requires
            old(self).wf(),
        ensures
            final(self).wf(),
            *final(self) == (Spu {
                ram: final(self).ram,
                reverb: final(self).reverb,
                irq_flag: final(self).irq_flag,
                irq_edge_pending: final(self).irq_edge_pending,
                ..*old(self)
            }),
            old(self).applied_control & 0x80 == 0 ==> final(self).ram@ == old(self).ram@,
            ({
                let o = *old(self);
                let writes = o.applied_control & 0x80 != 0;
                let p = o.reverb.process_spec(o.ram@, o.reverb_registers(), [send_left, send_right], writes);
                let wet: (i16, i16) = if o.reverb.second_half_tick {
                    (o.reverb.last_output[0], o.reverb.last_output[1])
                } else {
                    (clamp_i16_spec(p.1), clamp_i16_spec(p.2))
                };
                &&& r.0 == reverb_multiply(wet.0 as i32, o.registers@[(REG_REVERB_VOLUME_LEFT / 2) as int] as i16 as i32)
                &&& r.1 == reverb_multiply(wet.1 as i32, o.registers@[(REG_REVERB_VOLUME_RIGHT / 2) as int] as i16 as i32)
                &&& final(self).ram@ == if o.reverb.second_half_tick { o.ram@ } else { p.0 }
                &&& reverb_after(o.reverb, final(self).reverb, wet)
                &&& (final(self).irq_flag, final(self).irq_edge_pending) == raised_flags(
                    o.irq_flag,
                    o.irq_edge_pending,
                    o.control,
                    !o.reverb.second_half_tick && o.reverb.touches_irq(o.reverb_registers(), irq_address, writes),
                )
            }),
            !irq_enabled(old(self).control) ==> final(self).irq_flag == old(self).irq_flag
                && final(self).irq_edge_pending == old(self).irq_edge_pending,
    {
        let mut reverb_registers = [0u16; 32];
        let start: usize = (REG_REVERB_CONFIG_START / 2) as usize;
        let mut k: usize = 0;
        while k < 32
            invariant
                self.wf(),
                start == 0xe0,
                k <= 32,
                forall|i: int| 0 <= i < k ==> reverb_registers@[i] == self.registers@[0xe0 + i],
            decreases 32 - k,
        {
            reverb_registers[k] = self.registers[start + k];
            k += 1;
        }
        assert(reverb_registers@ =~= self.reverb_registers());
        let (wet, reverb_irq) = self.reverb.process(
            &mut self.ram,
            &reverb_registers,
            [send_left, send_right],
            (self.applied_control & 0x80) != 0,
            irq_address,
        );
        if reverb_irq {
            self.raise_irq();
        }
        let left = multiply(wet[0] as i32, self.registers[(REG_REVERB_VOLUME_LEFT / 2) as usize] as i16 as i32);
        let right = multiply(wet[1] as i32, self.registers[(REG_REVERB_VOLUME_RIGHT / 2) as usize] as i16 as i32);
        (left, right)
    }

    /// The noise generator: a timer counts down by the step; when it passes
    /// zero the 16-bit shift register takes in the parity of its taps.
    fn update_noise(&mut self)
        requires
            old(self).wf(),
        ensures
            final(self).wf(),
            (final(self).noise_level, final(self).noise_timer) == noise_step_spec(
                old(self).noise_level,
                old(self).noise_timer,
                old(self).applied_control,
            ),
            *final(self) == (Spu {
                noise_level: final(self).noise_level,
                noise_timer: final(self).noise_timer,
                ..*old(self)
            }),
    {
        let step = ((self.applied_control >> 8u16) & 3) as i32 + 4;
        let shift = ((self.applied_control >> 10u16) & 0x0f) as u32;
        self.noise_timer = self.noise_timer - step;
        let n = self.noise_level;
        let parity = ((n >> 15u16) ^ (n >> 12u16) ^ (n >> 11u16) ^ (n >> 10u16) ^ 1) & 1;
        if self.noise_timer < 0 {
            self.noise_level = (self.noise_level << 1u16) | parity;
            assert(0x2_0000u32 >> shift >= 4 && 0x2_0000u32 >> shift <= 0x2_0000) by (bit_vector)
                requires
                    shift <= 15,
            ;
            let reload = (0x2_0000u32 >> shift) as i32;
            self.noise_timer = self.noise_timer + reload;
            if self.noise_timer < 0 {
                self.noise_timer = self.noise_timer + reload;
            }
        }
    }

    /// Writes a captured sample to one of the four 1 KiB capture buffers;
    /// reports whether it hit the interrupt address while transfers are enabled.
    fn write_capture(&mut self, base: u32, value: i16) -> (r: bool)
        requires
            old(self).wf(),
            base <= 0xc00,
        ensures
            final(self).wf(),
            ({
                let a = (base + old(self).capture_offset) as int;
                final(self).ram@ == old(self).ram@.update(a, value as u16 as u8).update(a + 1, ((value as u16) >> 8u16) as u8)
            }),
            r == (hits_irq((base + old(self).capture_offset) as u32, old(self).spec_irq_address())
                && old(self).registers@[(REG_TRANSFER_CONTROL / 2) as int] & 0x0c != 0),
            *final(self) == (Spu { ram: final(self).ram, ..*old(self) }),
    {
        let address = base + self.capture_offset as u32;
        let bits = value as u16;
        self.ram.set(address as usize, bits as u8);
        self.ram.set(address as usize + 1, (bits >> 8u16) as u8);
        (address & !7u32) == (self.irq_address() & !7u32) && (self.registers[(REG_TRANSFER_CONTROL / 2) as usize] & 0x0c)
            != 0
    }

    /// The 24 voice bits of a low/high register pair.
    fn flag_register(&self, low_offset: u32) -> (r: u32)
        requires
            self.wf(),
            low_offset < 0x3fc,
        ensures
            r == self.registers@[(low_offset / 2) as int] as u32 | ((self.registers@[(low_offset / 2) + 1] as u32) << 16u32),
    {
        self.registers[(low_offset / 2) as usize] as u32 | ((self.registers[(low_offset / 2) as usize + 1] as u32) << 16u32)
    }

    fn irq_address(&self) -> (r: u32)
        requires
            self.wf(),
        ensures
            r == self.spec_irq_address(),
    {
        (self.registers[(REG_IRQ_ADDRESS / 2) as usize] as u32) * 8
    }

    fn touch_irq(&mut self, address: u32)
        requires
            old(self).wf(),
        ensures
            final(self).wf(),
            (final(self).irq_flag, final(self).irq_edge_pending) == old(self).after_touch(address),
            *final(self) == (Spu { irq_flag: final(self).irq_flag, irq_edge_pending: final(self).irq_edge_pending, ..*old(self) }),
    {
        if (address & !7u32) == (self.irq_address() & !7u32) {
            self.raise_irq();
        }
    }

    /// Sets the interrupt flag (and a pending edge) when enabled and not yet set.
    fn raise_irq(&mut self)
        ensures
            irq_enabled(old(self).control) && !old(self).irq_flag ==> final(self).irq_flag && final(self).irq_edge_pending,
            !(irq_enabled(old(self).control) && !old(self).irq_flag) ==> final(self).irq_flag == old(self).irq_flag
                && final(self).irq_edge_pending == old(self).irq_edge_pending,
            *final(self) == (Spu { irq_flag: final(self).irq_flag, irq_edge_pending: final(self).irq_edge_pending, ..*old(self) }),
    {
        if (self.control & 0x8040) != 0x8040 {
            return;
        }
        if !self.irq_flag {
            self.irq_flag = true;
            self.irq_edge_pending = true;
        }
    }

    fn push_output(&mut self, left: i16, right: i16)
        requires
            old(self).wf(),
        ensures
            final(self).wf(),
            final(self).output@ == pushed_frame(old(self).output@, left, right),
            *final(self) == (Spu { output: final(self).output, ..*old(self) }),
    {
        if self.output.len() + 2 > OUTPUT_CAPACITY {
            self.output.pop_front();
            self.output.pop_front();
        }
        self.output.push_back(left);
        self.output.push_back(right);
        proof {
            if old(self).output@.len() + 2 > OUTPUT_CAPACITY {
                assert(self.output@ =~= old(self).output@.subrange(2, old(self).output@.len() as int).push(left).push(right));
            }
        }
    }
}

impl Default for Spu {
    fn default() -> (r: Self)
        ensures
            r.wf(),
    {
        Self::new()
    }
}

fn write_mask(offset: u32, value: u16) -> (r: u32)
    ensures
        r == write_mask_spec(offset, value),
{
    if (offset & 2) == 0 {
        value as u32
    } else {
        (value as u32) * 0x1_0000
    }
}

/// The input split into groups of `group` halfwords; every halfword of a
/// group is replaced by the group's `source`-th one (its last if shorter).
pub open spec fn repeat_groups_spec(input: Seq<u16>, group: int, source: int, i: int) -> u16 {
    let start = (i / group) * group;
    let len = if input.len() - start < group { input.len() - start } else { group };
    let s = if source < len - 1 { source } else { len - 1 };
    input[start + s]
}

/// Inside a group that starts at a multiple of the group size, every index
/// rounds down to that start.
proof fn lemma_group_start(start: int, group: int, j: int)
    requires
        0 < group,
        0 <= start,
        start % group == 0,
        0 <= j < group,
    ensures
        ((start + j) / group) * group == start,
{
    vstd::arithmetic::div_mod::lemma_fundamental_div_mod(start, group);
    vstd::arithmetic::mul::lemma_mul_is_commutative(group, start / group);
    vstd::arithmetic::div_mod::lemma_fundamental_div_mod_converse(start + j, group, start / group, j);
}

fn repeat_groups(input: &Vec<u16>, group: usize, source: usize) -> (r: Vec<u16>)
    requires
        0 < group <= 8,
        source < group,
        input@.len() <= 32,
    ensures
        r@.len() == input@.len(),
        forall|i: int| 0 <= i < input@.len() ==> #[trigger] r@[i] == repeat_groups_spec(input@, group as int, source as int, i),
{
    let mut output: Vec<u16> = Vec::new();
    let mut start: usize = 0;
    while start < input.len()
        invariant
            0 < group <= 8,
            source < group,
            input@.len() <= 32,
            start <= input@.len() || start == output@.len(),
            output@.len() == start,
            start % group == 0 || start == input@.len(),
            start <= input@.len(),
            forall|i: int| 0 <= i < start ==> #[trigger] output@[i] == repeat_groups_spec(input@, group as int, source as int, i),
        decreases input@.len() - start,
    {
        let remaining = input.len() - start;
        let len = if remaining < group {
            remaining
        } else {
            group
        };
        let s = if source < len - 1 {
            source
        } else {
            len - 1
        };
        let value = input[start + s];
        let mut j: usize = 0;
        while j < len
            invariant
                0 < group <= 8,
                source < group,
                start % group == 0,
                start < input@.len(),
                len == if input@.len() - start < group { input@.len() - start } else { group as int },
                value == input@[start + (if source < len - 1 { source as int } else { len - 1 })],
                j <= len,
                output@.len() == start + j,
                forall|i: int| 0 <= i < start + j ==> #[trigger] output@[i] == repeat_groups_spec(input@, group as int, source as int, i),
            decreases len - j,
        {
            proof {
                lemma_group_start(start as int, group as int, j as int);
            }
            output.push(value);
            j += 1;
        }
        proof {
            vstd::arithmetic::div_mod::lemma_mod_add_multiples_vanish(start as int, group as int);
        }
        start = start + len;
    }
    output
}

/// A mixed sample scaled by a signed 1.15 main volume.
fn multiply_wide(sample: i64, volume: i32) -> (r: i64)
    requires
        -0x40_0000_0000 <= sample <= 0x40_0000_0000,
        -0x8000 <= volume <= 0x7fff,
    ensures
        r == (sample * volume) as i64 >> 15i64,
        sample == 0 ==> r == 0,
{
    assert(0i64 >> 15i64 == 0i64) by (bit_vector);
    proof {
        crate::bits::lemma_mul_bounds(sample as int, volume as int, 0x40_0000_0000, 0x8000);
    }
    (sample * volume as i64) >> 15i64
}

fn clamp_i16(value: i64) -> (r: i16)
    ensures
        r == clamp_wide_spec(value),
{
    if value < -0x8000 {
        -0x8000
    } else if value > 0x7fff {
        0x7fff
    } else {
        value as i16
    }
}

} // verus!
