use lib::joy::{
    Button, Controller, JoySerial, MemoryCard, ACK_DELAY_CYCLES, CTRL_DSR_IRQ_ENABLE, CTRL_DTR,
    CTRL_TX_ENABLE, MEMORY_CARD_SECTOR_SIZE, STAT_IRQ,
};

fn begin(joy: &mut JoySerial) {
    joy.write_baud(1);
    joy.write_control(CTRL_TX_ENABLE | CTRL_DTR);
}

fn transfer(joy: &mut JoySerial, value: u8) -> u8 {
    joy.write_data8(value);
    joy.tick(8);
    joy.read_data8()
}

#[test]
fn digital_controller_poll_returns_active_low_buttons() {
    let mut joy = JoySerial::new();
    joy.controller_mut(0)
        .unwrap()
        .set_button(Button::Cross, true);
    begin(&mut joy);

    let replies = [0x01, 0x42, 0, 0, 0].map(|value| transfer(&mut joy, value));

    assert_eq!(replies, [0xff, 0x41, 0x5a, 0xff, 0xbf]);
}

#[test]
fn dualshock_poll_returns_four_analog_axes() {
    let mut joy = JoySerial::new();
    let mut controller = Controller::dualshock();
    controller.set_analog_axes(1, 2, 3, 4);
    joy.set_controller(0, Some(controller));
    begin(&mut joy);

    let replies = [0x01, 0x42, 0, 0, 0, 0, 0, 0, 0].map(|value| transfer(&mut joy, value));

    assert_eq!(replies, [0xff, 0x73, 0x5a, 0xff, 0xff, 1, 2, 3, 4]);
}

#[test]
fn port_select_routes_transfer_to_second_controller() {
    let mut joy = JoySerial::new();
    joy.set_controller(0, None);
    joy.set_controller(1, Some(Controller::digital()));
    joy.write_baud(1);
    joy.write_control(CTRL_TX_ENABLE | CTRL_DTR | lib::joy::CTRL_PORT_SELECT);

    let replies = [0x01, 0x42, 0, 0, 0].map(|value| transfer(&mut joy, value));

    assert_eq!(replies, [0xff, 0x41, 0x5a, 0xff, 0xff]);
}

#[test]
fn controller_ack_irq_is_delayed_and_acknowledgeable() {
    let mut joy = JoySerial::new();
    joy.write_baud(1);
    joy.write_control(CTRL_TX_ENABLE | CTRL_DTR | CTRL_DSR_IRQ_ENABLE);
    joy.write_data8(0x01);

    assert!(!joy.tick(8));
    assert_eq!(joy.status() & STAT_IRQ, 0);
    assert!(!joy.tick(ACK_DELAY_CYCLES - 1));
    assert!(joy.tick(1));
    assert_ne!(joy.status() & STAT_IRQ, 0);
    assert_ne!(joy.status() & (1 << 7), 0);

    joy.write_control(CTRL_TX_ENABLE | CTRL_DTR | CTRL_DSR_IRQ_ENABLE | (1 << 4));
    assert_ne!(joy.status() & STAT_IRQ, 0);
    joy.tick(lib::joy::ACK_PULSE_CYCLES);
    joy.write_control(CTRL_TX_ENABLE | CTRL_DTR | CTRL_DSR_IRQ_ENABLE | (1 << 4));
    assert_eq!(joy.status() & STAT_IRQ, 0);
}

#[test]
fn formatted_card_has_valid_header_and_directory_checksums() {
    let card = MemoryCard::formatted();
    assert_eq!(&card.image()[..2], b"MC");
    for frame in 0..16 {
        let start = frame * MEMORY_CARD_SECTOR_SIZE;
        let sector = &card.image()[start..start + MEMORY_CARD_SECTOR_SIZE];
        assert_eq!(lib::joy::frame_checksum(sector), sector[127]);
    }
}

#[test]
fn memory_card_write_then_read_round_trips_sector() {
    let mut joy = JoySerial::new();
    joy.insert_memory_card(0, MemoryCard::formatted());
    begin(&mut joy);
    let data: Vec<u8> = (0..128).map(|value| value as u8).collect();
    let address = 7u16;
    let checksum = data
        .iter()
        .fold((address >> 8) as u8 ^ address as u8, |checksum, byte| {
            checksum ^ byte
        });

    let mut request = vec![0x81, 0x57, 0, 0, (address >> 8) as u8, address as u8];
    request.extend_from_slice(&data);
    request.extend_from_slice(&[checksum, 0, 0, 0]);
    let replies: Vec<u8> = request
        .into_iter()
        .map(|value| transfer(&mut joy, value))
        .collect();
    assert_eq!(&replies[replies.len() - 3..], &[0x5c, 0x5d, 0x47]);
    assert!(joy.memory_card(0).unwrap().is_dirty());

    joy.write_control(CTRL_TX_ENABLE);
    joy.write_control(CTRL_TX_ENABLE | CTRL_DTR);
    let mut read = vec![0x81, 0x52, 0, 0, 0, address as u8, 0, 0, 0, 0];
    read.extend(std::iter::repeat_n(0, 130));
    let replies: Vec<u8> = read
        .into_iter()
        .map(|value| transfer(&mut joy, value))
        .collect();

    assert_eq!(&replies[10..138], data.as_slice());
    assert_eq!(replies[138], checksum);
    assert_eq!(replies[139], 0x47);
}

#[test]
fn memory_card_rejects_bad_write_checksum() {
    let mut joy = JoySerial::new();
    joy.insert_memory_card(0, MemoryCard::formatted());
    let before = joy.memory_card(0).unwrap().read_sector(2).unwrap().to_vec();
    begin(&mut joy);

    let mut request = vec![0x81, 0x57, 0, 0, 0, 2];
    request.extend(std::iter::repeat_n(0x55, 128));
    request.extend_from_slice(&[0xff, 0, 0, 0]);
    let replies: Vec<u8> = request
        .into_iter()
        .map(|value| transfer(&mut joy, value))
        .collect();

    assert_eq!(replies.last(), Some(&0x4e));
    assert_eq!(joy.memory_card(0).unwrap().read_sector(2).unwrap(), before);
    assert!(!joy.memory_card(0).unwrap().is_dirty());
}
