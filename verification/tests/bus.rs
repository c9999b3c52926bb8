use lib::bus::{Bus, BCC_IS1, BCC_TAG, DEFAULT_CACHE_CONTROL};
use lib::interrupt::IRQ_DMA;
use lib::BIOS_SIZE;

#[test]
fn maps_ram_through_kseg0_and_kseg1() {
    let mut bus = Bus::new(None);
    bus.write32(0x8000_0100, 0x1234_5678);
    assert_eq!(bus.read32(0x0000_0100), 0x1234_5678);
    assert_eq!(bus.read32(0xa000_0100), 0x1234_5678);
}

#[test]
fn maps_scratchpad() {
    let mut bus = Bus::new(None);
    bus.write32(0x1f80_0000, 0xfeed_beef);
    assert_eq!(bus.read32(0x9f80_0000), 0xfeed_beef);
}

#[test]
fn reads_bios_from_boot_mirror() {
    let mut bios = vec![0xff; BIOS_SIZE];
    bios[0] = 0x12;
    bios[1] = 0x34;
    let mut bus = Bus::new(Some(bios));
    assert_eq!(bus.read16(0xbfc0_0000), 0x3412);
}

#[test]
fn peek32_reads_memory_without_changing_open_bus() {
    let mut bus = Bus::new(None);
    bus.write32(0x8000_0100, 0x1234_5678);
    bus.write32(0x8000_0200, 0xaabb_ccdd);
    let open_bus = bus.open_bus;

    assert_eq!(bus.peek32(0x8000_0100), 0x1234_5678);
    assert_eq!(bus.open_bus, open_bus);
}

#[test]
fn cache_control_register_round_trips() {
    let mut bus = Bus::new(None);

    assert_eq!(bus.read32(0xfffe_0130), DEFAULT_CACHE_CONTROL);
    bus.write32(0xfffe_0130, 0x0000_0804);
    assert_eq!(bus.cache_control(), 0x0000_0804);
    assert_eq!(bus.read32(0xfffe_0130), 0x0000_0804);
}

#[test]
fn isolated_cache_tag_and_code_modes_do_not_touch_ram() {
    let mut bus = Bus::new(None);

    bus.write32(0xfffe_0130, BCC_IS1 | BCC_TAG);
    bus.isolated_cache_write32(0x0000_0000, 0);
    assert_eq!(bus.isolated_cache_read32(0x0000_0000) & 0x1f, 0x10);
    bus.isolated_cache_write32(0x0000_0004, 0x0f);
    assert_eq!(bus.isolated_cache_read32(0x0000_0000) & 0x1f, 0x1f);

    bus.write32(0xfffe_0130, BCC_IS1);
    bus.isolated_cache_write32(0x0000_0004, 0x1234_5678);

    assert_eq!(bus.isolated_cache_read32(0x0000_0004), 0x1234_5678);
    assert_eq!(bus.read32(0x0000_0004), 0);
}

#[test]
fn dma2_linked_list_sends_gp0_packets_and_updates_madr() {
    let mut bus = Bus::new(None);
    bus.write32(0x0000_0100, 0x03ff_ffff);
    bus.write32(0x0000_0104, 0x0200_00ff); // fill rect, red
    bus.write32(0x0000_0108, 0x0000_0000); // xy
    bus.write32(0x0000_010c, 0x0001_0001); // 16x1 after fill alignment
    bus.write32(0x1f80_10f0, 1 << 11);
    bus.write32(0x1f80_10a0, 0x0000_0100);

    bus.write32(0x1f80_10a8, 0x0100_0401);

    assert_eq!(bus.gpu.vram()[0], 0x001f);
    assert_eq!(bus.gpu.vram()[15], 0x001f);
    assert_eq!(bus.gpu.vram()[16], 0x0000);
    assert_eq!(bus.read32(0x1f80_10a0), 0x00ff_fffc);
    assert_eq!(bus.read32(0x1f80_10a8) & (1 << 24), 0);
}

#[test]
fn dma2_sync1_vram_upload_updates_madr_and_block_count() {
    let mut bus = Bus::new(None);
    bus.write32(0x0000_0100, 0xa000_0000); // cpu-to-vram
    bus.write32(0x0000_0104, 0x0000_0000); // xy
    bus.write32(0x0000_0108, 0x0001_0002); // width=2,height=1
    bus.write32(0x0000_010c, 0x2222_1111);
    bus.write32(0x1f80_10f0, 1 << 11);
    bus.write32(0x1f80_10a0, 0x0000_0100);
    bus.write32(0x1f80_10a4, (1 << 16) | 4);

    bus.write32(0x1f80_10a8, 0x0100_0201);

    assert_eq!(bus.gpu.vram()[0], 0x1111);
    assert_eq!(bus.gpu.vram()[1], 0x2222);
    assert_eq!(bus.read32(0x1f80_10a0), 0x0000_0110);
    assert_eq!(bus.read32(0x1f80_10a4), 0x0000_0004);
}

#[test]
fn dma6_otc_clears_ordering_table_and_requests_irq_when_enabled() {
    let mut bus = Bus::new(None);
    bus.write32(0x1f80_10f0, 1 << 27);
    bus.write32(0x1f80_10f4, (1 << 23) | (1 << 22));
    bus.write32(0x1f80_10e0, 0x0000_010c);
    bus.write32(0x1f80_10e4, 4);

    bus.write32(0x1f80_10e8, 0x1100_0002);

    assert_eq!(bus.read32(0x0000_010c), 0x0000_0108);
    assert_eq!(bus.read32(0x0000_0108), 0x0000_0104);
    assert_eq!(bus.read32(0x0000_0104), 0x0000_0100);
    assert_eq!(bus.read32(0x0000_0100), 0x00ff_ffff);
    assert_ne!(bus.read32(0x1f80_10f4) & ((1 << 31) | (1 << 30)), 0);
    assert_ne!(bus.irq.status() & IRQ_DMA, 0);
}
