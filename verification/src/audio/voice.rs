//! One of the 24 SPU voices: ADPCM block decoding, pitch stepping, looping
//! and its envelopes.
use super::envelope::{
    adsr_tick_spec, volume_tick_spec, volume_written, AdsrEnvelope, EnvelopePhase, VolumeEnvelope,
};
use crate::SPU_RAM_SIZE;
use vstd::prelude::*;

verus! {

broadcast use crate::bits::group_bits;

pub const BLOCK_BYTES: u32 = 16u32;
pub const SAMPLES_PER_BLOCK: u32 = 28u32;
pub const SAMPLE_FRACTION_BITS: u32 = 12u32;
/// 28 samples in 4.12 fixed point.
pub const BLOCK_POSITION_END: u32 = 0x1_c000u32;
pub const SPU_RAM_MASK: u32 = 0x7_ffffu32;

#[derive(Debug, Clone, Copy)]
pub struct VoiceTick {
    pub output: i16,
    pub end_reached: bool,
    pub irq: bool,
}

impl Default for VoiceTick {
    fn default() -> (r: Self)
        ensures
            r.output == 0 && !r.end_reached && !r.irq,
    {
        VoiceTick { output: 0, end_reached: false, irq: false }
    }
}

#[derive(Debug, Clone, Copy)]
pub struct Voice {
    pub volume_left: VolumeEnvelope,
    pub volume_right: VolumeEnvelope,
    pub pitch: u16,
    pub start_address: u16,
    pub adsr_low: u16,
    pub adsr_high: u16,
    pub repeat_address: u16,
    pub envelope: AdsrEnvelope,
    pub current_address: u32,
    pub block_position: u32,
    pub decoded: [i16; 28],
    pub block_flags: u8,
    pub block_loaded: bool,
    pub previous_samples: [i16; 2],
    pub last_output: i16,
}

/// The positive and negative ADPCM predictor coefficients of filters 0 to 4.
pub open spec fn filter_pos(f: int) -> i32 {
    if f == 0 {
        0
    } else if f == 1 {
        60
    } else if f == 2 {
        115
    } else if f == 3 {
        98
    } else {
        122
    }
}

pub open spec fn filter_neg(f: int) -> i32 {
    if f == 0 {
        0
    } else if f == 1 {
        0
    } else if f == 2 {
        -52i32
    } else if f == 3 {
        -55i32
    } else {
        -60i32
    }
}

/// The 4-bit sample `i` of the block at `address`: the low nibble of each
/// data byte comes first.
pub open spec fn adpcm_nibble(ram: Seq<u8>, address: u32, i: int) -> u8 {
    let byte = ram[((address + 2 + i / 2) as int) % 0x8_0000];
    if i % 2 == 0 {
        byte & 0x0f
    } else {
        byte >> 4u8
    }
}

/// The sign-extended nibble scaled to 16 bits and shifted right by the block's shift.
pub open spec fn adpcm_source(nibble: u8, shift: u32) -> i32 {
    let signed: i32 = if nibble >= 8 { (nibble - 16) as i32 } else { nibble as i32 };
    ((signed * 4096) as i32) >> shift
}

pub open spec fn clamp16(v: int) -> i32 {
    if v < -0x8000 {
        -0x8000i32
    } else if v > 0x7fff {
        0x7fffi32
    } else {
        v as i32
    }
}

/// One decoded sample from the source value and the two previous outputs.
pub open spec fn adpcm_predict(source: i32, old: i32, older: i32, filter: int) -> i32 {
    let prediction = ((old * filter_pos(filter) + older * filter_neg(filter) + 32) as i32) >> 6i32;
    clamp16(source + prediction)
}

/// The decoder history (newest, second newest) after `n` samples of a block.
pub open spec fn adpcm_state(ram: Seq<u8>, address: u32, shift: u32, filter: int, h0: i32, h1: i32, n: nat) -> (
    i32,
    i32,
)
    decreases n,
{
    if n == 0 {
        (h0, h1)
    } else {
        let (o, oo) = adpcm_state(ram, address, shift, filter, h0, h1, (n - 1) as nat);
        (adpcm_predict(adpcm_source(adpcm_nibble(ram, address, n - 1), shift), o, oo, filter), o)
    }
}

pub open spec fn header_shift(header: u8) -> u32 {
    if header & 0x0f > 12 {
        12u32
    } else {
        (header & 0x0f) as u32
    }
}

pub open spec fn header_filter(header: u8) -> int {
    if (header >> 4u8) & 0x0f > 4 {
        4
    } else {
        ((header >> 4u8) & 0x0f) as int
    }
}

/// The pitch step per sample, with optional modulation by the previous
/// voice's output, limited to 0x4000 (four source samples per output sample).
pub open spec fn pitch_step_spec(pitch: u16, modulation: Option<i16>) -> u32 {
    let step: u32 = match modulation {
        Some(m) => ((((pitch as i16 as i64) * ((m as i64) + 0x8000)) as i64 >> 15i64) as u32) & 0xffff,
        None => pitch as u32,
    };
    if step > 0x4000 {
        0x4000u32
    } else {
        step
    }
}

pub fn pitch_step(pitch: u16, modulation: Option<i16>) -> (r: u32)
    ensures
        r == pitch_step_spec(pitch, modulation),
{
    let mut step = pitch as u32;
    if let Some(m) = modulation {
        let factor: i64 = m as i64 + 0x8000;
        let signed_pitch: i64 = pitch as i16 as i64;
        proof {
            crate::bits::lemma_mul_bounds(signed_pitch as int, factor as int, 0x8000, 0x10000);
        }
        step = ((signed_pitch * factor) >> 15i64) as u32 & 0xffff;
    }
    if step > 0x4000 {
        0x4000
    } else {
        step
    }
}

/// Decodes the 28 samples of the ADPCM block at `address`, continuing from
/// and updating the two-sample history.
pub fn decode_adpcm_block(ram: &[u8], address: u32, header: u8, history: &mut [i16; 2]) -> (r: [i16; 28])
    requires
        ram@.len() == SPU_RAM_SIZE,
    ensures
        ({
            let h0 = old(history)[0] as i32;
            let h1 = old(history)[1] as i32;
            let s = header_shift(header);
            let f = header_filter(header);
            &&& forall|i: int| 0 <= i < 28 ==> #[trigger] r[i] as i32 == adpcm_state(ram@, address, s, f, h0, h1, (i + 1) as nat).0
            &&& final(history)[0] as i32 == adpcm_state(ram@, address, s, f, h0, h1, 28).0
            &&& final(history)[1] as i32 == adpcm_state(ram@, address, s, f, h0, h1, 28).1
        }),
{
    let shift: u32 = if (header & 0x0f) > 12 {
        12
    } else {
        (header & 0x0f) as u32
    };
    let filter: usize = if ((header >> 4) & 0x0f) > 4 {
        4
    } else {
        ((header >> 4) & 0x0f) as usize
    };
    let pos: i32 = if filter == 0 { 0 } else if filter == 1 { 60 } else if filter == 2 { 115 } else if filter == 3 { 98 } else { 122 };
    let neg: i32 = if filter == 0 { 0 } else if filter == 1 { 0 } else if filter == 2 { -52 } else if filter == 3 { -55 } else { -60 };
    let mut decoded = [0i16;28];
    let mut old: i32 = history[0] as i32;
    let mut older: i32 = history[1] as i32;
    let ghost h0 = old;
    let ghost h1 = older;
    let mut i: usize = 0;
    while i < 28
        invariant
            i <= 28,
            ram@.len() == SPU_RAM_SIZE,
            shift == header_shift(header),
            filter as int == header_filter(header),
            pos == filter_pos(filter as int),
            neg == filter_neg(filter as int),
            (old, older) == adpcm_state(ram@, address, shift, filter as int, h0, h1, i as nat),
            -0x8000 <= old <= 0x7fff,
            -0x8000 <= older <= 0x7fff,
            forall|j: int| 0 <= j < i ==> #[trigger] decoded[j] as i32 == adpcm_state(ram@, address, shift, filter as int, h0, h1, (j + 1) as nat).0,
        decreases 28 - i,
    {
        let byte_address = ((address as u64 + 2 + (i / 2) as u64) % 0x8_0000) as usize;
        let byte = ram[byte_address];
        let nibble: u8 = if i % 2 == 0 {
            byte & 0x0f
        } else {
            byte >> 4
        };
        let signed: i32 = if nibble >= 8 {
            nibble as i32 - 16
        } else {
            nibble as i32
        };
        let source: i32 = (signed * 4096) >> shift;
        proof {
            crate::bits::lemma_mul_bounds(old as int, pos as int, 0x8000, 122);
            crate::bits::lemma_mul_bounds(older as int, neg as int, 0x8000, 60);
            assert(source == adpcm_source(nibble, shift));
            assert(nibble == adpcm_nibble(ram@, address, i as int));
        }
        let prediction: i32 = (old * pos + older * neg + 32) >> 6i32;
        let sum: i64 = source as i64 + prediction as i64;
        let value: i32 = if sum < -0x8000 {
            -0x8000
        } else if sum > 0x7fff {
            0x7fff
        } else {
            sum as i32
        };
        decoded[i] = value as i16;
        older = old;
        old = value;
        i += 1;
    }
    history[0] = old as i16;
    history[1] = older as i16;
    decoded
}

/// Whether `target` lies in the `len` bytes from `start`, wrapping around sound RAM.
pub open spec fn range_contains_wrapped_spec(start: u32, len: u32, target: u32) -> bool {
    exists|offset: int| 0 <= offset < len && #[trigger] wrap_ram(start + offset) == wrap_ram(target as int)
}

/// A sound-RAM byte address reduced into the 512 KiB space.
pub open spec fn wrap_ram(a: int) -> int {
    a % 0x8_0000
}

fn range_contains_wrapped(start: u32, len: u32, target: u32) -> (r: bool)
    ensures
        r == range_contains_wrapped_spec(start, len, target),
{
    let t = (target as u64) % 0x8_0000;
    let mut offset: u32 = 0;
    while offset < len
        invariant
            offset <= len,
            t == (target as int) % 0x8_0000,
            forall|o: int| 0 <= o < offset ==> #[trigger] wrap_ram(start + o) != wrap_ram(target as int),
        decreases len - offset,
    {
        if ((start as u64 + offset as u64) % 0x8_0000) == t {
            assert(wrap_ram(start + offset) == wrap_ram(target as int));
            return true;
        }
        offset += 1;
    }
    false
}

} // verus!

verus! {

/// The voice output for raw sample `raw` at envelope level `level`.
pub open spec fn apply_envelope(raw: i16, level: i16) -> i16 {
    clamp16((((raw as i32) * (level as i32)) as i32 >> 15i32) as int) as i16
}

/// The sample between decoded samples at a 4.12 block position: the
/// integer part picks a sample (the last one past the end) and the fraction
/// moves linearly towards the next.
pub open spec fn interpolate_spec(decoded: [i16; 28], position: u32) -> i16 {
    let idx0 = position >> 12u32;
    let index: int = if idx0 > 27 { 27 } else { idx0 as int };
    let next_index: int = if index + 1 > 27 { 27 } else { index + 1 };
    let current = decoded[index] as i32;
    let next = decoded[next_index] as i32;
    let fraction = (position & 0x0fff) as i32;
    ((current + (((next - current) * fraction) as i32 >> 12i32)) as i32) as i16
}

/// The block at a voice's current address decoded into `n`: its samples,
/// the decoder history carried on from `v`, its flags, and (for a
/// loop-start block) the repeat address.
pub open spec fn block_decoded_into(v: Voice, ram: Seq<u8>, n: Voice) -> bool {
    let address = v.current_address & SPU_RAM_MASK;
    let header = ram[address as int];
    let s = header_shift(header);
    let f = header_filter(header);
    let h0 = v.previous_samples[0] as i32;
    let h1 = v.previous_samples[1] as i32;
    &&& forall|i: int| 0 <= i < 28 ==> #[trigger] n.decoded[i] as i32 == adpcm_state(ram, address, s, f, h0, h1, (i + 1) as nat).0
    &&& n.previous_samples[0] as i32 == adpcm_state(ram, address, s, f, h0, h1, 28).0
    &&& n.previous_samples[1] as i32 == adpcm_state(ram, address, s, f, h0, h1, 28).1
    &&& n.block_flags == ram[(((address + 1) as u32) & SPU_RAM_MASK) as int]
    &&& n.repeat_address == if n.block_flags & 4 != 0 { (address >> 3u32) as u16 } else { v.repeat_address }
}

/// The voice after the last sample of its block: at the next block, or for
/// a loop-end block back at the repeat address, silenced unless the block
/// also has the repeat flag.
pub open spec fn finish_block_spec(v: Voice) -> Voice {
    if v.block_flags & 1 == 0 {
        Voice { block_loaded: false, current_address: ((v.current_address + BLOCK_BYTES) % 0x1_0000_0000) as u32 & SPU_RAM_MASK, ..v }
    } else if v.block_flags & 2 == 0 {
        Voice {
            block_loaded: false,
            current_address: (((v.repeat_address as u32) * 8) as u32) & SPU_RAM_MASK,
            envelope: AdsrEnvelope { level: 0, counter: 0, phase: EnvelopePhase::Off },
            last_output: 0,
            ..v
        }
    } else {
        Voice { block_loaded: false, current_address: (((v.repeat_address as u32) * 8) as u32) & SPU_RAM_MASK, ..v }
    }
}

/// The block position moved on by the (possibly modulated) pitch step,
/// finishing the block when it passes the end; also whether that block
/// was a loop end.
pub open spec fn advance_spec(v: Voice, modulation: Option<i16>) -> (Voice, bool) {
    let sum = v.block_position + pitch_step_spec(v.pitch, modulation);
    let position: u32 = if sum > u32::MAX { u32::MAX } else { sum as u32 };
    if position >= BLOCK_POSITION_END {
        (finish_block_spec(Voice { block_position: (position - BLOCK_POSITION_END) as u32, ..v }), v.block_flags & 1 != 0)
    } else {
        (Voice { block_position: position, ..v }, false)
    }
}

/// The voice with its volumes and envelope advanced by one sample.
pub open spec fn voice_ticked(o: Voice) -> Voice {
    Voice {
        volume_left: volume_tick_spec(o.volume_left),
        volume_right: volume_tick_spec(o.volume_right),
        envelope: adsr_tick_spec(o.envelope, o.adsr_low, o.adsr_high),
        ..o
    }
}

/// The voice ready to play a sample: as `voice_ticked`, with the block
/// that `n` holds when one had to be loaded.
pub open spec fn voice_prepared(o: Voice, n: Voice) -> Voice {
    if o.block_loaded {
        voice_ticked(o)
    } else {
        Voice {
            decoded: n.decoded,
            previous_samples: n.previous_samples,
            block_flags: n.block_flags,
            repeat_address: n.repeat_address,
            block_loaded: true,
            ..voice_ticked(o)
        }
    }
}

/// The output sample: noise or the interpolated ADPCM sample, scaled by the
/// envelope level.
pub open spec fn voice_output(o: Voice, noise: Option<i16>, n: Voice) -> i16 {
    let v2 = voice_prepared(o, n);
    let raw = match noise {
        Some(x) => x,
        None => interpolate_spec(v2.decoded, v2.block_position),
    };
    apply_envelope(raw, v2.envelope.level as i16)
}

/// The voice after playing a sample, and whether it ended a loop-end block.
pub open spec fn voice_advanced(o: Voice, modulation: Option<i16>, noise: Option<i16>, n: Voice) -> (Voice, bool) {
    let v3 = Voice { last_output: voice_output(o, noise, n), ..voice_prepared(o, n) };
    match noise {
        Some(_) => (v3, false),
        None => advance_spec(v3, modulation),
    }
}

/// What a voice's sample reports: silence for an envelope that is off;
/// otherwise its output, whether a loop-end block ended, and whether
/// loading a block touched the interrupt address.
#[verifier::opaque]
pub open spec fn tick_result(o: Voice, irq_address: u32, modulation: Option<i16>, noise: Option<i16>, n: Voice) -> VoiceTick {
    if voice_ticked(o).envelope.phase == EnvelopePhase::Off {
        VoiceTick { output: 0, end_reached: false, irq: false }
    } else {
        VoiceTick {
            output: voice_output(o, noise, n),
            end_reached: voice_advanced(o, modulation, noise, n).1,
            irq: !o.block_loaded && range_contains_wrapped_spec(o.current_address & SPU_RAM_MASK, BLOCK_BYTES, irq_address),
        }
    }
}

/// One output sample of a voice: volumes and envelope advance; an envelope
/// that is off gives silence; otherwise the block is loaded if needed, the
/// sample (noise, or the interpolated ADPCM sample) is scaled by the
/// envelope level, and without noise the position advances by the pitch.
#[verifier::opaque]
pub open spec fn voice_tick_spec(
    o: Voice,
    ram: Seq<u8>,
    irq_address: u32,
    modulation: Option<i16>,
    noise: Option<i16>,
    n: Voice,
    r: VoiceTick,
) -> bool {
    &&& if voice_ticked(o).envelope.phase == EnvelopePhase::Off {
        n == Voice { last_output: 0, ..voice_ticked(o) }
    } else {
        &&& !o.block_loaded ==> block_decoded_into(voice_ticked(o), ram, voice_prepared(o, n))
        &&& n == voice_advanced(o, modulation, noise, n).0
    }
    &&& r == tick_result(o, irq_address, modulation, noise, n)
}

/// A voice after key off: a sounding envelope moves to release at its
/// current level.
/// A voice `n` after `value` is written to its register `register` (low four bits).
pub open spec fn voice_register_written(o: Voice, register: u32, value: u16, n: Voice) -> bool {
    let reg = register & 0x0f;
    if reg == 0 {
        n == (Voice { volume_left: volume_written(o.volume_left, value), ..o })
    } else if reg == 2 {
        n == (Voice { volume_right: volume_written(o.volume_right, value), ..o })
    } else if reg == 4 {
        n == (Voice { pitch: value, ..o })
    } else if reg == 6 {
        n == (Voice { start_address: value, ..o })
    } else if reg == 8 {
        n == (Voice { adsr_low: value, ..o })
    } else if reg == 0xa {
        n == (Voice { adsr_high: value, ..o })
    } else if reg == 0xc {
        n == (Voice { envelope: AdsrEnvelope { level: value as i16 as i32, ..o.envelope }, ..o })
    } else if reg == 0xe {
        n == (Voice { repeat_address: value, ..o })
    } else {
        n == o
    }
}

/// A voice `n` after key on of `o`: the attack restarts from silence and
/// playback restarts at the start address.
pub open spec fn keyed_on(o: Voice, n: Voice) -> bool {
    &&& n == (Voice {
        envelope: AdsrEnvelope { level: 0, counter: 0, phase: EnvelopePhase::Attack },
        current_address: ((o.start_address as u32) * 8) as u32,
        block_position: 0,
        block_loaded: false,
        previous_samples: n.previous_samples,
        last_output: 0,
        ..o
    })
    &&& n.previous_samples@ == seq![0i16, 0i16]
}

pub open spec fn keyed_off(v: Voice) -> Voice {
    if v.envelope.phase != EnvelopePhase::Off {
        Voice { envelope: AdsrEnvelope { level: v.envelope.level, counter: 0, phase: EnvelopePhase::Release }, ..v }
    } else {
        v
    }
}

impl Voice {
    /// The eight voice registers, selected by the low four bits of the offset.
    pub open spec fn register_value(&self, register: u32) -> u16 {
        let reg = register & 0x0f;
        if reg == 0 {
            self.volume_left.register
        } else if reg == 2 {
            self.volume_right.register
        } else if reg == 4 {
            self.pitch
        } else if reg == 6 {
            self.start_address
        } else if reg == 8 {
            self.adsr_low
        } else if reg == 0xa {
            self.adsr_high
        } else if reg == 0xc {
            self.envelope.level as i16 as u16
        } else if reg == 0xe {
            self.repeat_address
        } else {
            0u16
        }
    }

    pub fn new() -> (r: Self)
        ensures
            r.pitch == 0 && r.start_address == 0 && r.adsr_low == 0 && r.adsr_high == 0 && r.repeat_address == 0,
            r.envelope.phase == EnvelopePhase::Off,
            r.current_address == 0 && r.block_position == 0,
            !r.block_loaded,
            r.last_output == 0,
    {
        Self {
            volume_left: VolumeEnvelope::new(),
            volume_right: VolumeEnvelope::new(),
            pitch: 0,
            start_address: 0,
            adsr_low: 0,
            adsr_high: 0,
            repeat_address: 0,
            envelope: AdsrEnvelope::new(),
            current_address: 0,
            block_position: 0,
            decoded: [0i16;28],
            block_flags: 0,
            block_loaded: false,
            previous_samples: [0i16;2],
            last_output: 0,
        }
    }

    /// The eight voice registers: volumes, pitch, start address, ADSR, the
    /// current envelope level, and the repeat address.
    pub fn read_register(&self, register: u32) -> (r: u16)
        ensures
            r == self.register_value(register),
    {
        let reg = register & 0x0f;
        if reg == 0 {
            self.volume_left.register()
        } else if reg == 2 {
            self.volume_right.register()
        } else if reg == 4 {
            self.pitch
        } else if reg == 6 {
            self.start_address
        } else if reg == 8 {
            self.adsr_low
        } else if reg == 0xa {
            self.adsr_high
        } else if reg == 0xc {
            self.envelope.level() as u16
        } else if reg == 0xe {
            self.repeat_address
        } else {
            0
        }
    }

    pub fn write_register(&mut self, register: u32, value: u16)
        ensures
            voice_register_written(*old(self), register, value, *final(self)),
    {
        let reg = register & 0x0f;
        if reg == 0 {
            self.volume_left.write(value);
        } else if reg == 2 {
            self.volume_right.write(value);
        } else if reg == 4 {
            self.pitch = value;
        } else if reg == 6 {
            self.start_address = value;
        } else if reg == 8 {
            self.adsr_low = value;
        } else if reg == 0xa {
            self.adsr_high = value;
        } else if reg == 0xc {
            self.envelope.set_level(value);
        } else if reg == 0xe {
            self.repeat_address = value;
        }
    }

    /// Key on: start the attack and restart playback at the start address.
    pub fn key_on(&mut self)
        ensures
            final(self).envelope == (AdsrEnvelope { level: 0, counter: 0, phase: EnvelopePhase::Attack }),
            final(self).current_address == (old(self).start_address as u32) * 8,
            final(self).block_position == 0,
            !final(self).block_loaded,
            final(self).previous_samples@ == seq![0i16, 0i16],
            final(self).last_output == 0,
            final(self).pitch == old(self).pitch,
            final(self).start_address == old(self).start_address,
            final(self).repeat_address == old(self).repeat_address,
            keyed_on(*old(self), *final(self)),
    {
        self.envelope.key_on();
        self.current_address = (self.start_address as u32) * 8;
        self.block_position = 0;
        self.block_loaded = false;
        self.previous_samples = [0i16;2];
        self.last_output = 0;
        assert(self.previous_samples@ =~= seq![0i16, 0i16]);
    }

    pub fn key_off(&mut self)
        ensures
            *final(self) == keyed_off(*old(self)),
            *final(self) == (Voice { envelope: final(self).envelope, ..*old(self) }),
            old(self).envelope.phase != EnvelopePhase::Off ==> final(self).envelope.phase == EnvelopePhase::Release,
            old(self).envelope.phase == EnvelopePhase::Off ==> final(self).envelope == old(self).envelope,
    {
        self.envelope.key_off();
    }

    /// Produces one output sample.  The volume and ADSR envelopes advance; a
    /// silent (off) voice outputs zero.  Otherwise the next block is decoded
    /// when needed (reporting whether it touched the interrupt address), the
    /// sample is interpolated (or taken from the noise generator) and scaled
    /// by the envelope level, and the play position advances by the pitch
    /// step, moving to the next block or looping at a block end.
    pub fn tick(&mut self, ram: &[u8], irq_address: u32, pitch_modulation: Option<i16>, noise: Option<i16>) -> (r:
        VoiceTick)
        requires
            ram@.len() == SPU_RAM_SIZE,
        ensures
            voice_tick_spec(*old(self), ram@, irq_address, pitch_modulation, noise, *final(self), r),
            r == tick_result(*old(self), irq_address, pitch_modulation, noise, *final(self)),
            final(self).volume_left == volume_tick_spec(old(self).volume_left),
            final(self).volume_right == volume_tick_spec(old(self).volume_right),
            adsr_tick_spec(old(self).envelope, old(self).adsr_low, old(self).adsr_high).phase == EnvelopePhase::Off
                ==> r.output == 0 && !r.end_reached && !r.irq && final(self).last_output == 0,
            adsr_tick_spec(old(self).envelope, old(self).adsr_low, old(self).adsr_high).phase != EnvelopePhase::Off
                && noise is Some ==> final(self).last_output == r.output,
            adsr_tick_spec(old(self).envelope, old(self).adsr_low, old(self).adsr_high).phase != EnvelopePhase::Off
                && noise is Some ==> !r.end_reached && final(self).block_position == old(self).block_position,
            adsr_tick_spec(old(self).envelope, old(self).adsr_low, old(self).adsr_high).phase != EnvelopePhase::Off
                && noise is Some ==> r.output == apply_envelope(
                noise->0,
                adsr_tick_spec(old(self).envelope, old(self).adsr_low, old(self).adsr_high).level as i16,
            ),
            final(self).pitch == old(self).pitch,
            final(self).start_address == old(self).start_address,
            final(self).adsr_low == old(self).adsr_low,
            final(self).adsr_high == old(self).adsr_high,
    {
        reveal(voice_tick_spec);
        reveal(tick_result);
        self.volume_left.tick();
        self.volume_right.tick();
        self.envelope.tick(self.adsr_low, self.adsr_high);
        if self.envelope.phase() == EnvelopePhase::Off {
            self.last_output = 0;
            return VoiceTick { output: 0, end_reached: false, irq: false };
        }
        let mut irq = false;
        if !self.block_loaded {
            irq = self.decode_block(ram, irq_address);
        }
        let raw: i16 = match noise {
            Some(n) => n,
            None => {
                let idx0: u32 = self.block_position >> 12u32;
                let index: usize = if idx0 > 27 {
                    27
                } else {
                    idx0 as usize
                };
                let fraction: i32 = (self.block_position & 0x0fff) as i32;
                let current: i32 = self.decoded[index] as i32;
                let next_index: usize = if index + 1 > 27 {
                    27
                } else {
                    index + 1
                };
                let next: i32 = self.decoded[next_index] as i32;
                proof {
                    crate::bits::lemma_mul_bounds((next - current) as int, fraction as int, 0x10000, 0x1000);
                }
                let prod: i32 = (next - current) * fraction;
                let delta: i32 = prod >> 12i32;
                proof {
                    crate::bits::lemma_shr12_i32_bounds(prod);
                }
                (current + delta) as i16
            },
        };
        let level = self.envelope.level();
        proof {
            crate::bits::lemma_mul_bounds(raw as int, level as int, 0x8000, 0x8000);
        }
        let scaled: i32 = (raw as i32 * level as i32) >> 15i32;
        let output: i16 = if scaled < -0x8000 {
            -0x8000
        } else if scaled > 0x7fff {
            0x7fff
        } else {
            scaled as i16
        };
        self.last_output = output;
        let mut end_reached = false;
        if noise.is_none() {
            self.block_position = self.block_position.saturating_add(pitch_step(self.pitch, pitch_modulation));
            if self.block_position >= BLOCK_POSITION_END {
                self.block_position = self.block_position - BLOCK_POSITION_END;
                end_reached = (self.block_flags & 1) != 0;
                self.finish_block();
            }
        }
        VoiceTick { output, end_reached, irq }
    }

    pub fn volume_left(&self) -> (r: i16)
        ensures
            r == self.volume_left.level as i16,
    {
        self.volume_left.current()
    }

    pub fn volume_right(&self) -> (r: i16)
        ensures
            r == self.volume_right.level as i16,
    {
        self.volume_right.current()
    }

    pub fn current_address(&self) -> (r: u32)
        ensures
            r == self.current_address,
    {
        self.current_address
    }

    /// Decodes the block at the current address; a block with the loop-start
    /// flag sets the repeat address.  Returns whether the block covers the
    /// interrupt address.
    fn decode_block(&mut self, ram: &[u8], irq_address: u32) -> (r: bool)
        requires
            ram@.len() == SPU_RAM_SIZE,
        ensures
            block_decoded_into(*old(self), ram@, *final(self)),
            *final(self) == (Voice {
                decoded: final(self).decoded,
                previous_samples: final(self).previous_samples,
                block_flags: final(self).block_flags,
                repeat_address: final(self).repeat_address,
                block_loaded: true,
                ..*old(self)
            }),
            r == range_contains_wrapped_spec(old(self).current_address & SPU_RAM_MASK, BLOCK_BYTES, irq_address),
    {
        let address = self.current_address & SPU_RAM_MASK;
        let header = ram[address as usize];
        self.block_flags = ram[((address + 1) & SPU_RAM_MASK) as usize];
        let mut history = self.previous_samples;
        self.decoded = decode_adpcm_block(ram, address, header, &mut history);
        self.previous_samples = history;
        self.block_loaded = true;
        if (self.block_flags & 4) != 0 {
            self.repeat_address = (address >> 3u32) as u16;
        }
        range_contains_wrapped(address, BLOCK_BYTES, irq_address)
    }

    /// Moves on after the last sample of a block: to the next block, or for a
    /// loop-end block back to the repeat address, silencing the voice unless
    /// the block also has the repeat flag.
    fn finish_block(&mut self)
        ensures
            *final(self) == finish_block_spec(*old(self)),
    {
        self.block_loaded = false;
        if (self.block_flags & 1) == 0 {
            self.current_address = self.current_address.wrapping_add(BLOCK_BYTES) & SPU_RAM_MASK;
            return;
        }
        self.current_address = ((self.repeat_address as u32) * 8) & SPU_RAM_MASK;
        if (self.block_flags & 2) == 0 {
            self.envelope.force_off();
            self.last_output = 0;
        }
    }
}

impl Default for Voice {
    fn default() -> (r: Self)
        ensures
            r.envelope.phase == EnvelopePhase::Off,
    {
        Self::new()
    }
}

} // verus!

verus! {

/// An arithmetic shift right by six keeps the order of two values.
proof fn lemma_shift6_monotone(a: i32, b: i32)
    by (bit_vector)
    requires
        a <= b,
    ensures
        (a >> 6i32) <= (b >> 6i32),
{
}

/// The ADPCM predictor weights the newest decoded sample by the filter's
/// positive coefficient: for every filter a larger newest sample never gives
/// a smaller output, and filters 0 and 1 ignore the second-newest sample.
pub proof fn lemma_adpcm_prediction_follows_newest(
    source: i32,
    old1: i32,
    old2: i32,
    older1: i32,
    older2: i32,
    filter: int,
)
    requires
        -0x8000 <= old1 <= old2 <= 0x7fff,
        -0x8000 <= older1 <= 0x7fff,
        -0x8000 <= older2 <= 0x7fff,
        0 <= filter <= 4,
    ensures
        adpcm_predict(source, old1, older1, filter) <= adpcm_predict(source, old2, older1, filter),
        filter <= 1 ==> adpcm_predict(source, old1, older1, filter) == adpcm_predict(source, old1, older2, filter),
{
    let pos = filter_pos(filter);
    let neg = filter_neg(filter);
    assert(0 <= pos <= 122 && -60 <= neg <= 0);
    assert(old1 * pos <= old2 * pos) by (nonlinear_arith)
        requires
            old1 <= old2,
            pos >= 0,
    ;
    crate::bits::lemma_mul_bounds(old1 as int, pos as int, 0x8000, 122);
    crate::bits::lemma_mul_bounds(old2 as int, pos as int, 0x8000, 122);
    crate::bits::lemma_mul_bounds(older1 as int, neg as int, 0x8000, 60);
    let a = (old1 * pos + older1 * neg + 32) as i32;
    let b = (old2 * pos + older1 * neg + 32) as i32;
    lemma_shift6_monotone(a, b);
    if filter <= 1 {
        assert(neg == 0);
        assert(older1 * neg == 0 && older2 * neg == 0);
    }
}

/// The first sample decoded with filter 0 or 1 does not depend on the
/// second-newest history sample.
pub proof fn lemma_adpcm_first_sample_ignores_older(
    ram: Seq<u8>,
    address: u32,
    shift: u32,
    filter: int,
    h0: i32,
    h1: i32,
    h1_other: i32,
)
    requires
        0 <= filter <= 1,
        -0x8000 <= h0 <= 0x7fff,
        -0x8000 <= h1 <= 0x7fff,
        -0x8000 <= h1_other <= 0x7fff,
    ensures
        adpcm_state(ram, address, shift, filter, h0, h1, 1).0 == adpcm_state(ram, address, shift, filter, h0, h1_other, 1).0,
{
    let src = adpcm_source(adpcm_nibble(ram, address, 0), shift);
    lemma_adpcm_prediction_follows_newest(src, h0, h0, h1, h1_other, filter);
    assert(adpcm_state(ram, address, shift, filter, h0, h1, 0) == (h0, h1));
    assert(adpcm_state(ram, address, shift, filter, h0, h1_other, 0) == (h0, h1_other));
}

} // verus!

verus! {

/// The second-newest decoded sample enters the prediction through the
/// filter's negative coefficient: with filters 2 to 4 a larger
/// second-newest sample never gives a larger output.
pub proof fn lemma_adpcm_prediction_against_older(source: i32, old: i32, older1: i32, older2: i32, filter: int)
    requires
        -0x8000 <= old <= 0x7fff,
        -0x8000 <= older1 <= older2 <= 0x7fff,
        2 <= filter <= 4,
    ensures
        adpcm_predict(source, old, older2, filter) <= adpcm_predict(source, old, older1, filter),
{
    let pos = filter_pos(filter);
    let neg = filter_neg(filter);
    assert(98 <= pos <= 122 && -60 <= neg <= -52);
    assert(older2 * neg <= older1 * neg) by (nonlinear_arith)
        requires
            older1 <= older2,
            neg <= 0,
    ;
    crate::bits::lemma_mul_bounds(old as int, pos as int, 0x8000, 122);
    crate::bits::lemma_mul_bounds(older1 as int, neg as int, 0x8000, 60);
    crate::bits::lemma_mul_bounds(older2 as int, neg as int, 0x8000, 60);
    let a = (old * pos + older2 * neg + 32) as i32;
    let b = (old * pos + older1 * neg + 32) as i32;
    lemma_shift6_monotone(a, b);
}

} // verus!
