use lib::dma::DmaController;

#[test]
fn dma6_chcr_only_exposes_otc_control_bits() {
    let mut dma = DmaController::new();

    dma.write32(0x68, 0xffff_ffff);

    assert_eq!(dma.read32(0x68), 0x5100_0002);
}

#[test]
fn completion_sets_dicr_flag_only_when_channel_is_enabled() {
    let mut dma = DmaController::new();

    assert!(!dma.complete_channel(2, None, None, false));
    assert_eq!(dma.read32(0x74) & ((1 << 31) | (1 << 26)), 0);

    dma.write32(0x74, (1 << 23) | (1 << 18));
    assert!(dma.complete_channel(2, None, None, false));

    assert_ne!(dma.read32(0x74) & (1 << 26), 0);
    assert_ne!(dma.read32(0x74) & (1 << 31), 0);

    dma.write32(0x74, 1 << 26);
    assert_eq!(dma.read32(0x74) & ((1 << 31) | (1 << 26)), 0);
}

#[test]
fn dicr_bus_error_forces_master_irq_flag() {
    let mut dma = DmaController::new();

    let result = dma.write32(0x74, 1 << 15);

    assert!(result.irq_edge);
    assert_ne!(dma.read32(0x74) & (1 << 15), 0);
    assert_ne!(dma.read32(0x74) & (1 << 31), 0);
}

#[test]
fn pending_channel_selection_uses_priority_then_high_channel_number() {
    let mut dma = DmaController::new();
    dma.write32(0x70, (1 << 11) | (1 << 27));
    dma.write32(0x28, 0x0100_0201);
    dma.write32(0x68, 0x1100_0002);

    assert_eq!(dma.next_pending_channel(), Some(6));
}

#[test]
fn sync0_channel_waits_for_force_start_bit() {
    let mut dma = DmaController::new();
    dma.write32(0x70, 1 << 15);
    dma.write32(0x38, 1 << 24);

    assert_eq!(dma.next_pending_channel(), None);

    dma.write32(0x38, (1 << 24) | (1 << 28));

    assert_eq!(dma.next_pending_channel(), Some(3));
}
