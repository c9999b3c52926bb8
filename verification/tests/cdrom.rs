use lib::cdrom::{Cdrom, CdromDiscError, CdromSectorSize};

#[test]
fn setmode_and_getparam_round_trip_mode_byte() {
    let mut cdrom = Cdrom::new();
    command_with_params(&mut cdrom, 0x0e, &[0x80]);

    assert_eq!(interrupt_flags(&mut cdrom) & 0x7, 0x3);
    assert_eq!(cdrom.read8(1), 0x02);
    ack(&mut cdrom);

    command_with_params(&mut cdrom, 0x0f, &[]);

    assert_eq!(cdrom.read8(1), 0x02);
    assert_eq!(cdrom.read8(1), 0x80);
    assert_eq!(cdrom.read8(1), 0);
    assert_eq!(cdrom.read8(1), 0);
    assert_eq!(cdrom.read8(1), 0);
}

#[test]
fn setloc_and_readn_queue_cooked_sector_data_after_ack() {
    let mut cdrom = Cdrom::new();
    cdrom
        .load_disc_image(cooked_disc(3), CdromSectorSize::Cooked2048)
        .unwrap();
    command_with_params(&mut cdrom, 0x02, &[0x00, 0x02, 0x01]);
    ack(&mut cdrom);

    command_with_params(&mut cdrom, 0x06, &[]);

    assert_eq!(interrupt_flags(&mut cdrom) & 0x7, 0x3);
    assert_eq!(cdrom.read8(1), 0x22);
    ack(&mut cdrom);
    assert_eq!(interrupt_flags(&mut cdrom) & 0x7, 0x1);
    assert_eq!(cdrom.read8(1), 0x22);
    assert_eq!(cdrom.read8(2), 1);
    assert_eq!(cdrom.read8(2), 2);
    assert_eq!(cdrom.read8(2), 3);
    assert_eq!(cdrom.read8(2), 4);
}

#[test]
fn readn_without_disc_reports_error_interrupt() {
    let mut cdrom = Cdrom::new();

    command_with_params(&mut cdrom, 0x06, &[]);

    assert_eq!(interrupt_flags(&mut cdrom) & 0x7, 0x5);
    assert_eq!(cdrom.read8(1), 0x03);
    assert_eq!(cdrom.read8(1), 0x80);
}

#[test]
fn raw_disc_reads_mode2_payload_area() {
    let mut raw = vec![0xee; 2352];
    raw[24] = 0x11;
    raw[25] = 0x22;
    let mut cdrom = Cdrom::new();
    cdrom
        .load_disc_image(raw, CdromSectorSize::Raw2352)
        .unwrap();

    command_with_params(&mut cdrom, 0x06, &[]);
    ack(&mut cdrom);

    assert_eq!(cdrom.read8(2), 0x11);
    assert_eq!(cdrom.read8(2), 0x22);
}

#[test]
fn rejects_misaligned_disc_images() {
    let mut cdrom = Cdrom::new();

    let err = cdrom
        .load_disc_image(vec![0; 2047], CdromSectorSize::Cooked2048)
        .unwrap_err();

    assert_eq!(err, CdromDiscError::MisalignedLength);
}

fn command_with_params(cdrom: &mut Cdrom, command: u8, params: &[u8]) {
    cdrom.write8(0, 0);
    for param in params {
        cdrom.write8(2, *param);
    }
    cdrom.write8(1, command);
}

fn interrupt_flags(cdrom: &mut Cdrom) -> u8 {
    cdrom.write8(0, 1);
    cdrom.read8(3)
}

fn ack(cdrom: &mut Cdrom) {
    cdrom.write8(0, 1);
    cdrom.write8(3, 0x1f);
    cdrom.write8(0, 0);
}

fn cooked_disc(sectors: usize) -> Vec<u8> {
    let mut disc = vec![0; sectors * 2048];
    for sector in 0..sectors {
        for offset in 0..2048 {
            disc[sector * 2048 + offset] = (sector as u8).wrapping_add(offset as u8);
        }
    }
    disc
}
