//! ADSR and volume-sweep envelopes of the sound processor.
use vstd::prelude::*;

verus! {

broadcast use crate::bits::group_bits;

#[derive(Debug, Clone, Copy, PartialEq, Eq, Structural)]
pub enum EnvelopePhase {
    Off,
    Attack,
    Decay,
    Sustain,
    Release,
}

/// One envelope rate: a shift and step pair plus its direction and curve.
#[derive(Clone, Copy)]
pub struct Rate {
    pub shift: u8,
    pub step: u8,
    pub exponential: bool,
    pub decreasing: bool,
    pub phase_negative: bool,
    pub frozen: bool,
}

pub open spec fn level_in_range(level: i32) -> bool {
    -0x8000 <= level <= 0x7fff
}

pub open spec fn sat_add_i32(a: i32, b: i32) -> i32 {
    if a + b > i32::MAX {
        i32::MAX
    } else if a + b < i32::MIN {
        i32::MIN
    } else {
        (a + b) as i32
    }
}

pub open spec fn clamp_i32_spec(v: i32, lo: i32, hi: i32) -> i32 {
    if v < lo {
        lo
    } else if v > hi {
        hi
    } else {
        v
    }
}

/// The signed step of a rate before curve adjustment: `7 - step`, negated
/// (bitwise) for a decreasing sweep, scaled up by `11 - shift` bits.
pub open spec fn base_step(rate: Rate) -> i32 {
    let s0: i32 = (7 - rate.step) as i32;
    let s1: i32 = if rate.decreasing != rate.phase_negative { (-s0 - 1) as i32 } else { s0 };
    let up: int = if rate.shift < 11 { 11 - rate.shift } else { 0 };
    (s1 * vstd::arithmetic::power2::pow2(up as nat)) as i32
}

/// How much the rate counter advances per sample.
pub open spec fn base_increment(rate: Rate) -> u32 {
    let down: int = if rate.shift > 11 { rate.shift - 11 } else { 0 };
    let inc = (0x8000nat / vstd::arithmetic::power2::pow2(down as nat)) as u32;
    if inc < 1 { 1 } else { inc }
}

/// One sample of envelope progress: the counter accumulates the increment and
/// each time it passes 0x8000 the level moves by the step, then is clamped to
/// the range its direction allows.
pub open spec fn step_envelope_spec(level: i32, counter: u32, rate: Rate) -> (i32, u32) {
    if rate.frozen {
        (level, counter)
    } else {
        let step = base_step(rate);
        let inc = base_increment(rate);
        let (step2, inc2): (i32, u32) = if rate.exponential && !rate.decreasing && level > 0x6000 {
            if rate.shift < 10 {
                (step >> 2i32, inc)
            } else if rate.shift >= 11 {
                (step, if inc / 4 < 1 { 1u32 } else { (inc / 4) as u32 })
            } else {
                (step >> 1i32, if inc / 2 < 1 { 1u32 } else { (inc / 2) as u32 })
            }
        } else if rate.exponential && rate.decreasing {
            ((((step as i64) * (level as i64)) as i64 >> 15i64) as i32, inc)
        } else {
            (step, inc)
        };
        let c1: u32 = if counter + inc2 > u32::MAX { u32::MAX } else { (counter + inc2) as u32 };
        if c1 < 0x8000 {
            (level, c1)
        } else {
            let l1 = sat_add_i32(level, step2);
            let l2 = if !rate.decreasing {
                clamp_i32_spec(l1, -0x8000i32, 0x7fffi32)
            } else if rate.phase_negative {
                clamp_i32_spec(l1, -0x8000i32, 0i32)
            } else if l1 < 0 {
                0i32
            } else {
                l1
            };
            (l2, (c1 - 0x8000) as u32)
        }
    }
}

} // verus!

verus! {

use vstd::arithmetic::power2::pow2;

pub(crate) fn sat_add_i32_exec(a: i32, b: i32) -> (r: i32)
    ensures
        r == sat_add_i32(a, b),
{
    let s = a as i64 + b as i64;
    if s > i32::MAX as i64 {
        i32::MAX
    } else if s < i32::MIN as i64 {
        i32::MIN
    } else {
        s as i32
    }
}

fn clamp_i32(v: i32, lo: i32, hi: i32) -> (r: i32)
    ensures
        r == clamp_i32_spec(v, lo, hi),
{
    if v < lo {
        lo
    } else if v > hi {
        hi
    } else {
        v
    }
}

/// Advances `level` and `counter` by one sample at the given rate.
pub fn step_envelope(level: &mut i32, counter: &mut u32, rate: Rate)
    requires
        rate.shift < 32,
        rate.step < 4,
    ensures
        (*final(level), *final(counter)) == step_envelope_spec(*old(level), *old(counter), rate),
{
    if rate.frozen {
        return;
    }
    let mut step: i32 = 7i32 - rate.step as i32;
    if rate.decreasing != rate.phase_negative {
        step = -step - 1;
    }
    let up: u32 = 11u32.saturating_sub(rate.shift as u32);
    let down: u32 = (rate.shift as u32).saturating_sub(11);
    proof {
        vstd::arithmetic::power2::lemma2_to64();
        vstd::bits::lemma_u32_shl_is_mul(1u32, up);
        vstd::bits::lemma_u32_shr_is_div(0x8000u32, down);
    }
    proof {
        if up < 11 {
            vstd::arithmetic::power2::lemma_pow2_strictly_increases(up as nat, 11);
        }
    }
    let factor: i32 = (1u32 << up) as i32;
    proof {
        crate::bits::lemma_mul_bounds(step as int, factor as int, 8, 2048);
    }
    step = step * factor;
    let mut increment: u32 = 0x8000u32 >> down;
    if increment < 1 {
        increment = 1;
    }
    assert(step == base_step(rate));
    assert(increment == base_increment(rate));
    if rate.exponential && !rate.decreasing && *level > 0x6000 {
        if rate.shift < 10 {
            step = step >> 2i32;
        } else if rate.shift >= 11 {
            increment = if increment / 4 < 1 {
                1
            } else {
                increment / 4
            };
        } else {
            step = step >> 1i32;
            increment = if increment / 2 < 1 {
                1
            } else {
                increment / 2
            };
        }
    } else if rate.exponential && rate.decreasing {
        proof {
            crate::bits::lemma_mul_bounds(step as int, *level as int, 16384, 0x8000_0000);
        }
        let p: i64 = step as i64 * *level as i64;
        step = (p >> 15i64) as i32;
    }
    *counter = counter.saturating_add(increment);
    if *counter < 0x8000 {
        return;
    }
    *counter = *counter - 0x8000;
    *level = sat_add_i32_exec(*level, step);
    if !rate.decreasing {
        *level = clamp_i32(*level, -0x8000, 0x7fff);
    } else if rate.phase_negative {
        *level = clamp_i32(*level, -0x8000, 0);
    } else if *level < 0 {
        *level = 0;
    }
}

} // verus!

verus! {

#[derive(Debug, Clone, Copy)]
pub struct AdsrEnvelope {
    pub level: i32,
    pub counter: u32,
    pub phase: EnvelopePhase,
}

pub open spec fn attack_rate(low: u16) -> Rate {
    let shift = ((low >> 10u16) & 0x1f) as u8;
    let step = ((low >> 8u16) & 3) as u8;
    Rate {
        shift,
        step,
        exponential: low & 0x8000 != 0,
        decreasing: false,
        phase_negative: false,
        frozen: shift == 0x1f && step == 3,
    }
}

pub open spec fn decay_rate(low: u16) -> Rate {
    Rate {
        shift: ((low >> 4u16) & 0x0f) as u8,
        step: 0,
        exponential: true,
        decreasing: true,
        phase_negative: false,
        frozen: false,
    }
}

/// The sustain level: `(SL + 1) * 0x800`, at most 0x7fff.
pub open spec fn sustain_target(low: u16) -> i32 {
    let t = ((low & 0x0f) + 1) * 0x800;
    if t > 0x7fff {
        0x7fffi32
    } else {
        t as i32
    }
}

pub open spec fn sustain_rate(high: u16) -> Rate {
    let shift = ((high >> 8u16) & 0x1f) as u8;
    let step = ((high >> 6u16) & 3) as u8;
    Rate {
        shift,
        step,
        exponential: high & 0x8000 != 0,
        decreasing: high & 0x4000 != 0,
        phase_negative: false,
        frozen: shift == 0x1f && step == 3,
    }
}

pub open spec fn release_rate(high: u16) -> Rate {
    let shift = (high & 0x1f) as u8;
    Rate { shift, step: 0, exponential: high & 0x20 != 0, decreasing: true, phase_negative: false, frozen: shift == 0x1f }
}

/// One sample of the ADSR state machine.
pub open spec fn adsr_tick_spec(e: AdsrEnvelope, low: u16, high: u16) -> AdsrEnvelope {
    match e.phase {
        EnvelopePhase::Off => e,
        EnvelopePhase::Attack => {
            let (l, c) = step_envelope_spec(e.level, e.counter, attack_rate(low));
            if l >= 0x7fff {
                AdsrEnvelope { level: 0x7fff, counter: 0, phase: EnvelopePhase::Decay }
            } else {
                AdsrEnvelope { level: l, counter: c, phase: EnvelopePhase::Attack }
            }
        },
        EnvelopePhase::Decay => {
            let (l, c) = step_envelope_spec(e.level, e.counter, decay_rate(low));
            let target = sustain_target(low);
            if l <= target {
                AdsrEnvelope { level: target, counter: 0, phase: EnvelopePhase::Sustain }
            } else {
                AdsrEnvelope { level: l, counter: c, phase: EnvelopePhase::Decay }
            }
        },
        EnvelopePhase::Sustain => {
            let (l, c) = step_envelope_spec(e.level, e.counter, sustain_rate(high));
            AdsrEnvelope { level: l, counter: c, phase: EnvelopePhase::Sustain }
        },
        EnvelopePhase::Release => {
            let (l, c) = step_envelope_spec(e.level, e.counter, release_rate(high));
            if l <= 0 {
                AdsrEnvelope { level: 0, counter: 0, phase: EnvelopePhase::Off }
            } else {
                AdsrEnvelope { level: l, counter: c, phase: EnvelopePhase::Release }
            }
        },
    }
}

impl AdsrEnvelope {
    pub fn new() -> (r: Self)
        ensures
            r == (AdsrEnvelope { level: 0, counter: 0, phase: EnvelopePhase::Off }),
    {
        Self { level: 0, counter: 0, phase: EnvelopePhase::Off }
    }

    /// Key on: restart the attack from silence.
    pub fn key_on(&mut self)
        ensures
            *final(self) == (AdsrEnvelope { level: 0, counter: 0, phase: EnvelopePhase::Attack }),
    {
        self.level = 0;
        self.counter = 0;
        self.phase = EnvelopePhase::Attack;
    }

    /// Key off: a sounding envelope moves to release at its current level.
    pub fn key_off(&mut self)
        ensures
            old(self).phase != EnvelopePhase::Off ==> *final(self) == (AdsrEnvelope {
                level: old(self).level,
                counter: 0,
                phase: EnvelopePhase::Release,
            }),
            old(self).phase == EnvelopePhase::Off ==> *final(self) == *old(self),
    {
        if self.phase != EnvelopePhase::Off {
            self.counter = 0;
            self.phase = EnvelopePhase::Release;
        }
    }

    pub fn force_off(&mut self)
        ensures
            *final(self) == (AdsrEnvelope { level: 0, counter: 0, phase: EnvelopePhase::Off }),
    {
        self.level = 0;
        self.counter = 0;
        self.phase = EnvelopePhase::Off;
    }

    pub fn level(&self) -> (r: i16)
        ensures
            r == self.level as i16,
    {
        self.level as i16
    }

    /// The current-level register is writable; it is a signed 16-bit value.
    pub fn set_level(&mut self, value: u16)
        ensures
            *final(self) == (AdsrEnvelope { level: value as i16 as i32, ..*old(self) }),
    {
        self.level = value as i16 as i32;
    }

    pub fn phase(&self) -> (r: EnvelopePhase)
        ensures
            r == self.phase,
    {
        self.phase
    }

    /// Advances the envelope by one sample using the voice's ADSR registers.
    pub fn tick(&mut self, adsr_low: u16, adsr_high: u16)
        ensures
            *final(self) == adsr_tick_spec(*old(self), adsr_low, adsr_high),
    {
        match self.phase {
            EnvelopePhase::Off => {},
            EnvelopePhase::Attack => {
                let shift = ((adsr_low >> 10) & 0x1f) as u8;
                let step = ((adsr_low >> 8) & 3) as u8;
                step_envelope(
                    &mut self.level,
                    &mut self.counter,
                    Rate {
                        shift,
                        step,
                        exponential: (adsr_low & 0x8000) != 0,
                        decreasing: false,
                        phase_negative: false,
                        frozen: shift == 0x1f && step == 3,
                    },
                );
                if self.level >= 0x7fff {
                    self.level = 0x7fff;
                    self.counter = 0;
                    self.phase = EnvelopePhase::Decay;
                }
            },
            EnvelopePhase::Decay => {
                let shift = ((adsr_low >> 4) & 0x0f) as u8;
                step_envelope(
                    &mut self.level,
                    &mut self.counter,
                    Rate { shift, step: 0, exponential: true, decreasing: true, phase_negative: false, frozen: false },
                );
                let t: i32 = ((adsr_low & 0x0f) as i32 + 1) * 0x800;
                let target: i32 = if t > 0x7fff {
                    0x7fff
                } else {
                    t
                };
                if self.level <= target {
                    self.level = target;
                    self.counter = 0;
                    self.phase = EnvelopePhase::Sustain;
                }
            },
            EnvelopePhase::Sustain => {
                let shift = ((adsr_high >> 8) & 0x1f) as u8;
                let step = ((adsr_high >> 6) & 3) as u8;
                step_envelope(
                    &mut self.level,
                    &mut self.counter,
                    Rate {
                        shift,
                        step,
                        exponential: (adsr_high & 0x8000) != 0,
                        decreasing: (adsr_high & 0x4000) != 0,
                        phase_negative: false,
                        frozen: shift == 0x1f && step == 3,
                    },
                );
            },
            EnvelopePhase::Release => {
                let shift = (adsr_high & 0x1f) as u8;
                step_envelope(
                    &mut self.level,
                    &mut self.counter,
                    Rate {
                        shift,
                        step: 0,
                        exponential: (adsr_high & 0x20) != 0,
                        decreasing: true,
                        phase_negative: false,
                        frozen: shift == 0x1f,
                    },
                );
                if self.level <= 0 {
                    self.force_off();
                }
            },
        }
    }
}

impl Default for AdsrEnvelope {
    fn default() -> (r: Self)
        ensures
            r == (AdsrEnvelope { level: 0, counter: 0, phase: EnvelopePhase::Off }),
    {
        Self::new()
    }
}

#[derive(Debug, Clone, Copy)]
pub struct VolumeEnvelope {
    pub register: u16,
    pub level: i32,
    pub counter: u32,
}

/// The sweep rate encoded in a volume register with bit 15 set.
pub open spec fn sweep_rate(register: u16) -> Rate {
    let shift = ((register >> 2u16) & 0x1f) as u8;
    let step = (register & 3) as u8;
    Rate {
        shift,
        step,
        exponential: register & 0x4000 != 0,
        decreasing: register & 0x2000 != 0,
        phase_negative: register & 0x1000 != 0,
        frozen: shift == 0x1f && step == 3,
    }
}

/// A fixed volume: the low 15 bits, sign-extended and doubled.
pub open spec fn fixed_volume(register: u16) -> i32 {
    (((register << 1u16) as u16) as i16) as i32
}

/// A volume envelope after its register is written: the sweep restarts, and
/// a fixed volume takes effect at once.
pub open spec fn volume_written(e: VolumeEnvelope, value: u16) -> VolumeEnvelope {
    VolumeEnvelope {
        register: value,
        level: if value & 0x8000 == 0 { fixed_volume(value) } else { e.level },
        counter: 0,
    }
}

pub open spec fn volume_tick_spec(v: VolumeEnvelope) -> VolumeEnvelope {
    if v.register & 0x8000 == 0 {
        VolumeEnvelope { level: fixed_volume(v.register), ..v }
    } else {
        let (l, c) = step_envelope_spec(v.level, v.counter, sweep_rate(v.register));
        VolumeEnvelope { level: l, counter: c, ..v }
    }
}

impl VolumeEnvelope {
    pub fn new() -> (r: Self)
        ensures
            r == (VolumeEnvelope { register: 0, level: 0, counter: 0 }),
    {
        Self { register: 0, level: 0, counter: 0 }
    }

    /// Writing the register restarts the sweep; a fixed volume takes effect at once.
    pub fn write(&mut self, value: u16)
        ensures
            final(self).register == value,
            final(self).counter == 0,
            final(self).level == if value & 0x8000 == 0 { fixed_volume(value) } else { old(self).level },
            *final(self) == volume_written(*old(self), value),
    {
        self.register = value;
        self.counter = 0;
        if (value & 0x8000) == 0 {
            self.level = ((value << 1u16) as i16) as i32;
        }
    }

    pub fn register(&self) -> (r: u16)
        ensures
            r == self.register,
    {
        self.register
    }

    pub fn current(&self) -> (r: i16)
        ensures
            r == self.level as i16,
    {
        self.level as i16
    }

    pub fn tick(&mut self)
        ensures
            *final(self) == volume_tick_spec(*old(self)),
    {
        if (self.register & 0x8000) == 0 {
            self.level = ((self.register << 1u16) as i16) as i32;
            return;
        }
        let shift = ((self.register >> 2) & 0x1f) as u8;
        let step = (self.register & 3) as u8;
        step_envelope(
            &mut self.level,
            &mut self.counter,
            Rate {
                shift,
                step,
                exponential: (self.register & 0x4000) != 0,
                decreasing: (self.register & 0x2000) != 0,
                phase_negative: (self.register & 0x1000) != 0,
                frozen: shift == 0x1f && step == 3,
            },
        );
    }
}

impl Default for VolumeEnvelope {
    fn default() -> (r: Self)
        ensures
            r == (VolumeEnvelope { register: 0, level: 0, counter: 0 }),
    {
        Self::new()
    }
}

} // verus!

verus! {

/// Arithmetic right shifts keep the sign of a value, and a shift by 15 of a
/// value above -2^30 stays above -2^15.
proof fn lemma_shift_keeps_sign(a: i64, b: i32)
    by (bit_vector)
    ensures
        a <= 0 ==> (a >> 15i64) <= 0,
        a >= -0x4000_0000i64 ==> (a >> 15i64) >= -0x8000i64,
        b >= 0 ==> (b >> 1i32) >= 0 && (b >> 2i32) >= 0,
{
}

/// One step of a rising or falling (not negative-phase) sweep keeps a level
/// in 0..=0x7fff.
proof fn lemma_step_keeps_level(level: i32, counter: u32, rate: Rate)
    requires
        0 <= level <= 0x7fff,
        !rate.phase_negative,
        rate.step <= 3,
    ensures
        0 <= step_envelope_spec(level, counter, rate).0 <= 0x7fff,
{
    if !rate.frozen {
        let up: int = if rate.shift < 11 { 11 - rate.shift } else { 0 };
        vstd::arithmetic::power2::lemma_pow2_pos(up as nat);
        vstd::arithmetic::power2::lemma_pow2_strictly_increases(up as nat, 12);
        vstd::arithmetic::power2::lemma2_to64();
        let p = pow2(up as nat);
        let s0: i32 = (7 - rate.step) as i32;
        assert(1 <= p <= 4096);
        if rate.decreasing {
            let s1: int = -s0 - 1;
            assert(-8 * 4096 <= s1 * p <= -1) by (nonlinear_arith)
                requires
                    -8 <= s1 <= -5,
                    1 <= p <= 4096,
            ;
            let step = base_step(rate);
            assert(-0x8000 <= step < 0);
            if rate.exponential {
                assert(-0x8000 * 0x7fff <= (step as i64) * (level as i64) <= 0) by (nonlinear_arith)
                    requires
                        -0x8000 <= step < 0,
                        0 <= level <= 0x7fff,
                ;
                lemma_shift_keeps_sign(((step as i64) * (level as i64)) as i64, 0);
            }
        } else {
            assert(4 * 1 <= s0 * p <= 7 * 4096) by (nonlinear_arith)
                requires
                    4 <= s0 <= 7,
                    1 <= p <= 4096,
            ;
            let step = base_step(rate);
            assert(0 < step);
            lemma_shift_keeps_sign(0, step);
        }
    }
}

/// The ADSR envelope's level stays within 0..=0x7fff, and its phase only
/// moves forward: attack to decay, decay to sustain, release to off; a
/// sustain stays in sustain and an envelope that is off stays off.
pub proof fn lemma_adsr_tick_in_range(e: AdsrEnvelope, low: u16, high: u16)
    requires
        0 <= e.level <= 0x7fff,
    ensures
        0 <= adsr_tick_spec(e, low, high).level <= 0x7fff,
        ({
            let p = adsr_tick_spec(e, low, high).phase;
            match e.phase {
                EnvelopePhase::Off => p == EnvelopePhase::Off,
                EnvelopePhase::Attack => p == EnvelopePhase::Attack || p == EnvelopePhase::Decay,
                EnvelopePhase::Decay => p == EnvelopePhase::Decay || p == EnvelopePhase::Sustain,
                EnvelopePhase::Sustain => p == EnvelopePhase::Sustain,
                EnvelopePhase::Release => p == EnvelopePhase::Release || p == EnvelopePhase::Off,
            }
        }),
{
    match e.phase {
        EnvelopePhase::Off => {},
        EnvelopePhase::Attack => {
            lemma_step_keeps_level(e.level, e.counter, attack_rate(low));
        },
        EnvelopePhase::Decay => {
            lemma_step_keeps_level(e.level, e.counter, decay_rate(low));
        },
        EnvelopePhase::Sustain => {
            lemma_step_keeps_level(e.level, e.counter, sustain_rate(high));
        },
        EnvelopePhase::Release => {
            lemma_step_keeps_level(e.level, e.counter, release_rate(high));
        },
    }
}

} // verus!
