use lib::audio::envelope::{AdsrEnvelope, EnvelopePhase, VolumeEnvelope};
use lib::audio::reverb::Reverb;
use lib::audio::spu::{Spu, SPU_CYCLES_PER_SAMPLE};
use lib::audio::voice::{decode_adpcm_block, pitch_step, Voice};
use lib::SPU_RAM_SIZE;

#[test]
fn fast_adsr_reaches_sustain_and_release_returns_to_zero() {
    let mut envelope = AdsrEnvelope::new();
    envelope.key_on();
    let low = 0x0008;
    let high = 0x1fc0;

    for _ in 0..32 {
        envelope.tick(low, high);
    }
    assert_eq!(envelope.phase(), EnvelopePhase::Sustain);
    assert_eq!(envelope.level(), 0x4800);

    envelope.key_off();
    for _ in 0..16 {
        envelope.tick(low, high);
    }
    assert_eq!(envelope.phase(), EnvelopePhase::Off);
    assert_eq!(envelope.level(), 0);
}

#[test]
fn fixed_volume_sign_extends_and_doubles_the_15_bit_value() {
    let mut volume = VolumeEnvelope::new();
    volume.write(0x2000);
    assert_eq!(volume.current(), 0x4000);
    volume.write(0x6000);
    assert_eq!(volume.current(), -0x4000);
}

#[test]
fn disabled_reverb_keeps_ram_unchanged() {
    let mut reverb = Reverb::new();
    reverb.set_base(0x1000);
    let mut ram = vec![0; SPU_RAM_SIZE];
    let mut registers = [0u16; 32];
    registers[2] = 0x7fff;
    registers[30] = 0x7fff;
    registers[31] = 0x7fff;

    reverb.process(&mut ram, &registers, [10_000, -10_000], false, 0);

    assert!(ram.iter().all(|byte| *byte == 0));
}

#[test]
fn filter_zero_decodes_low_nibble_before_high_nibble() {
    let mut ram = vec![0; SPU_RAM_SIZE];
    ram[0] = 0x0c;
    ram[2] = 0x1f;
    let mut history = [0; 2];

    let decoded = decode_adpcm_block(&ram, 0, ram[0], &mut history);

    assert_eq!(decoded[0], -1);
    assert_eq!(decoded[1], 1);
}

#[test]
fn pitch_modulation_uses_previous_voice_amplitude_and_clamps() {
    assert_eq!(pitch_step(0x1000, Some(0)), 0x1000);
    assert_eq!(pitch_step(0x1000, Some(0x4000)), 0x1800);
    assert_eq!(pitch_step(0x7000, None), 0x4000);
}

#[test]
fn loop_start_updates_repeat_address_and_loop_end_jumps_back() {
    let mut ram = vec![0; SPU_RAM_SIZE];
    ram[0x100] = 0x0c;
    ram[0x101] = 0x07;
    let mut voice = Voice::new();
    voice.write_register(0x4, 0x4000);
    voice.write_register(0x6, 0x20);
    voice.write_register(0x8, 0);
    voice.write_register(0xa, 0);
    voice.key_on();

    let mut tick = Default::default();
    for _ in 0..7 {
        tick = voice.tick(&ram, 0x7ffff, None, None);
    }

    assert!(tick.end_reached);
    assert_eq!(voice.current_address(), 0x100);
    assert_eq!(voice.read_register(0xe), 0x20);
}

#[test]
fn transfer_address_register_stays_fixed_while_dma_address_advances() {
    let mut spu = Spu::new();
    spu.write16(0x1a6, 0x20);
    spu.dma_write32(0x4433_2211);

    assert_eq!(spu.read16(0x1a6), 0x20);
    assert_eq!(&spu.ram()[0x100..0x104], &[0x11, 0x22, 0x33, 0x44]);

    spu.write16(0x1a6, 0x20);
    assert_eq!(spu.dma_read32(), 0x4433_2211);
}

#[test]
fn manual_fifo_commits_on_the_next_spu_tick() {
    let mut spu = Spu::new();
    spu.write16(0x1a6, 2);
    spu.write16(0x1a8, 0x1234);
    spu.write16(0x1a8, 0xabcd);
    spu.write16(0x1aa, 0x8010);

    assert_eq!(&spu.ram()[16..20], &[0, 0, 0, 0]);
    spu.tick(SPU_CYCLES_PER_SAMPLE);

    assert_eq!(&spu.ram()[16..20], &[0x34, 0x12, 0xcd, 0xab]);
    assert_eq!(spu.read16(0x1ae) & 0x3f, 0x10);
}

#[test]
fn spu_produces_stereo_samples_at_44100_hz() {
    let mut spu = Spu::new();

    spu.tick(SPU_CYCLES_PER_SAMPLE * 3 - 1);
    assert_eq!(spu.queued_samples(), 4);
    spu.tick(1);
    assert_eq!(spu.queued_samples(), 6);
}

#[test]
fn adpcm_voice_reaches_the_stereo_mixer() {
    let mut spu = Spu::new();
    spu.write16(0x1a6, 0x20);
    let block = [0x7777_0700, 0x7777_7777, 0x7777_7777, 0x7777_7777];
    for word in block {
        spu.dma_write32(word);
    }
    spu.write16(0x000, 0x3fff);
    spu.write16(0x002, 0x3fff);
    spu.write16(0x004, 0x1000);
    spu.write16(0x006, 0x20);
    spu.write16(0x008, 0x0000);
    spu.write16(0x00a, 0x0000);
    spu.write16(0x180, 0x3fff);
    spu.write16(0x182, 0x3fff);
    spu.write16(0x188, 1);
    spu.write16(0x1aa, 0xc000);

    spu.tick(SPU_CYCLES_PER_SAMPLE * 8);
    let mut output = [0i16; 16];
    assert_eq!(spu.drain_audio(&mut output), 16);
    assert!(output.iter().any(|sample| *sample != 0));
    assert!(output.chunks_exact(2).all(|pair| pair[0] == pair[1]));
}

#[test]
fn transfer_to_irq_address_sets_status_and_emits_edge() {
    let mut spu = Spu::new();
    spu.write16(0x1a4, 0x20);
    spu.write16(0x1a6, 0x20);
    spu.write16(0x1aa, 0x8040);

    spu.dma_write32(0x1234_5678);

    assert!(spu.irq_pending());
    assert_ne!(spu.read16(0x1ae) & (1 << 6), 0);
    assert!(spu.tick(1));
    assert!(!spu.tick(1));
    spu.write16(0x1aa, 0x8000);
    assert!(!spu.irq_pending());
}

#[test]
fn disabling_irq_cancels_an_unconsumed_edge() {
    let mut spu = Spu::new();
    spu.write16(0x1a4, 0x20);
    spu.write16(0x1a6, 0x20);
    spu.write16(0x1aa, 0x8040);
    spu.dma_write32(0);

    spu.write16(0x1aa, 0x8000);

    assert!(!spu.tick(1));
    assert!(!spu.irq_pending());
}

#[test]
fn cd_input_is_mixed_and_written_to_capture_ram() {
    let mut spu = Spu::new();
    spu.write16(0x180, 0x3fff);
    spu.write16(0x182, 0x3fff);
    spu.write16(0x1b0, 0x7fff);
    spu.write16(0x1b2, 0x7fff);
    spu.write16(0x1aa, 0xc001);
    spu.push_cd_sample(10_000, -10_000);

    spu.tick(SPU_CYCLES_PER_SAMPLE);
    let mut output = [0i16; 2];
    spu.drain_audio(&mut output);

    assert!(output[0] > 9_000);
    assert!(output[1] < -9_000);
    assert_eq!(i16::from_le_bytes([spu.ram()[0], spu.ram()[1]]), 10_000);
    assert_eq!(
        i16::from_le_bytes([spu.ram()[0x400], spu.ram()[0x401]]),
        -10_000
    );

    spu.write16(0x1aa, 0x0001);
    spu.push_cd_sample(8_000, 4_000);
    spu.tick(SPU_CYCLES_PER_SAMPLE);
    spu.drain_audio(&mut output);
    assert!(output[0] > 7_000);
    assert!(output[1] > 3_000);
}
