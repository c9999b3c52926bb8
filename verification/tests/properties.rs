use lib::bus::Bus;
use lib::cdrom::{Cdrom, CdromSectorSize};
use lib::cpu::cop0::{Cop0, ExceptionContext, Exception};
use lib::cpu::Cpu;
use lib::gpu::Gpu;
use lib::interrupt::{InterruptController, IRQ_JOY, IRQ_TIMER0, IRQ_VBLANK};
use lib::joy::{MemoryCard, CTRL_DSR_IRQ_ENABLE, CTRL_DTR, CTRL_TX_ENABLE, MEMORY_CARD_SECTOR_SIZE};
use lib::audio::spu::{Spu, SPU_CYCLES_PER_SAMPLE};
use lib::Ps1;

#[test]
fn draw_offset_reads_back_through_gp1_info() {
    let mut gpu = Gpu::new();
    for (x, y) in [(0i16, 0i16), (-1, 1), (1023, -1024), (-300, 200)] {
        let word = lib::gpu::encode_draw_offset(x, y);
        gpu.write_gp0(0xe500_0000 | word);
        gpu.write_gp1(0x1000_0005);
        assert_eq!(gpu.read_gp0(), word);
    }
}

#[test]
fn add_overflow_traps_and_leaves_the_destination() {
    let mut cpu = Cpu::new();
    let mut bus = Bus::new(None);
    cpu.set_pc(0x8000_0000);
    cpu.regs[1] = 0x7fff_ffff;
    cpu.regs[2] = 0x1234;
    // add r2, r1, r1 overflows; addu does not
    bus.write32(0x0000_0000, (1 << 21) | (1 << 16) | (2 << 11) | 0x20);
    cpu.step(&mut bus);
    assert_eq!(cpu.regs[2], 0x1234);
    assert_eq!((cpu.cop0.cause() >> 2) & 0x1f, 12);
    assert_eq!(cpu.pc, 0xbfc0_0180);
}

#[test]
fn ram_words_and_halfwords_read_back() {
    let mut bus = Bus::new(None);
    bus.write32(0x8000_1000, 0xdead_beef);
    assert_eq!(bus.read32(0xa000_1000), 0xdead_beef);
    assert_eq!(bus.peek32(0x0000_1000), 0xdead_beef);
    bus.write16(0x8000_2002, 0xcafe);
    assert_eq!(bus.read16(0x0000_2002), 0xcafe);
    assert_eq!(bus.read32(0x0000_2000), 0xcafe_0000);
    bus.write32(0xfffe_0130, 0x0000_0001);
    assert_eq!(bus.read32(0xfffe_0130), 0x0000_0001);
}

#[test]
fn rfe_after_an_exception_restores_the_mode_stack() {
    let mut cop0 = Cop0::new();
    cop0.write(12, 0x0000_0015);
    cop0.enter_exception(ExceptionContext {
        exception: Exception::Syscall,
        epc: 0x8000_0000,
        in_delay_slot: false,
        delay_slot_branch_taken: false,
        delay_slot_branch_target: 0,
        bad_vaddr: None,
        coprocessor: None,
    });
    assert_eq!(cop0.status() & 0x3f, 0x14);
    cop0.rfe();
    assert_eq!(cop0.status() & 0x0f, 0x05);
}

#[test]
fn acknowledging_a_line_keeps_the_others() {
    let mut irq = InterruptController::new();
    irq.request(IRQ_VBLANK | IRQ_TIMER0 | 0x8000);
    irq.acknowledge(!IRQ_VBLANK);
    assert_eq!(irq.status(), IRQ_TIMER0);
}

#[test]
fn setloc_position_reads_back_through_getlocl() {
    let mut cdrom = Cdrom::new();
    cdrom.write8(0, 0);
    for param in [0x12u8, 0x34, 0x56] {
        cdrom.write8(2, param);
    }
    cdrom.write8(1, 0x02);
    cdrom.write8(0, 1);
    cdrom.write8(3, 0x1f);
    cdrom.write8(0, 0);
    cdrom.write8(1, 0x10);
    assert_eq!(cdrom.read8(1), 0x12);
    assert_eq!(cdrom.read8(1), 0x34);
    assert_eq!(cdrom.read8(1), 0x56);
}

#[test]
fn cdrom_reports_a_single_data_track() {
    let mut cdrom = Cdrom::new();
    cdrom
        .load_disc_image(vec![0; 2048 * 75], CdromSectorSize::Cooked2048)
        .unwrap();
    cdrom.write8(0, 0);
    cdrom.write8(1, 0x13);
    assert_eq!(cdrom.read8(1), 0x02);
    assert_eq!(cdrom.read8(1), 0x01);
    assert_eq!(cdrom.read8(1), 0x01);
    cdrom.write8(0, 1);
    cdrom.write8(3, 0x1f);
    cdrom.write8(0, 0);
    cdrom.write8(2, 0x00);
    cdrom.write8(1, 0x14);
    assert_eq!(cdrom.read8(1), 0x02);
    assert_eq!(cdrom.read8(1), 0x00);
    assert_eq!(cdrom.read8(1), 0x03);
}

#[test]
fn formatted_card_directory_frames_all_check_out() {
    let card = MemoryCard::formatted();
    for frame in 0..36 {
        let start = frame * MEMORY_CARD_SECTOR_SIZE;
        let sector = &card.image()[start..start + MEMORY_CARD_SECTOR_SIZE];
        assert_eq!(lib::joy::frame_checksum(sector), sector[127]);
    }
}

#[test]
fn spu_queues_one_frame_per_768_cycles() {
    let mut spu = Spu::new();
    spu.tick(SPU_CYCLES_PER_SAMPLE * 10 + 767);
    assert_eq!(spu.queued_samples(), 20);
    spu.tick(1);
    assert_eq!(spu.queued_samples(), 22);
}

#[test]
fn spu_transfer_words_round_trip() {
    let mut spu = Spu::new();
    spu.write16(0x1a6, 0x100);
    spu.dma_write32(0x0102_0304);
    spu.dma_write32(0xa0b0_c0d0);
    spu.write16(0x1a6, 0x100);
    assert_eq!(spu.dma_read32(), 0x0102_0304);
    assert_eq!(spu.dma_read32(), 0xa0b0_c0d0);
}

#[test]
fn console_drains_queued_audio() {
    let mut ps1 = Ps1::new(None);
    for _ in 0..(SPU_CYCLES_PER_SAMPLE / 2 * 3) {
        ps1.step_one();
    }
    let mut out = [7i16; 10];
    assert_eq!(ps1.drain_audio(&mut out), 6);
    assert_eq!(&out[6..], &[0, 0, 0, 0]);
    assert_eq!(ps1.bus.spu.queued_samples(), 0);
}

#[test]
fn controller_port_is_reachable_through_the_bus() {
    let mut bus = Bus::new(None);
    bus.write16(0x1f80_104e, 1);
    bus.write16(0x1f80_104a, CTRL_TX_ENABLE | CTRL_DTR | CTRL_DSR_IRQ_ENABLE);
    bus.write8(0x1f80_1040, 0x01);
    bus.tick(8);
    assert_eq!(bus.read8(0x1f80_1040), 0xff);
    bus.tick(400);
    assert_ne!(bus.irq.status() & IRQ_JOY, 0);
    assert_eq!(bus.read16(0x1f80_104a), CTRL_TX_ENABLE | CTRL_DTR | CTRL_DSR_IRQ_ENABLE);
}

#[test]
fn memory_card_reads_back_through_the_console_port() {
    let mut bus = Bus::new(None);
    bus.joy.insert_memory_card(0, MemoryCard::formatted());
    bus.write16(0x1f80_104e, 1);
    bus.write16(0x1f80_104a, CTRL_TX_ENABLE | CTRL_DTR);
    let mut replies = Vec::new();
    for value in [0x81u8, 0x52, 0, 0, 0, 0] {
        bus.write8(0x1f80_1040, value);
        bus.tick(8);
        replies.push(bus.read8(0x1f80_1040));
    }
    assert_eq!(&replies[2..4], &[0x5a, 0x5d]);
}
