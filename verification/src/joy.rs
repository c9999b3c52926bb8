//! The controller and memory card serial port (JOY_*): digital and
//! DualShock pads, memory cards with their read/write/ID protocol, and the
//! port's transfer timing, receive FIFO, acknowledge pulse and interrupt.
use std::collections::VecDeque;
use vstd::prelude::*;

verus! {

broadcast use crate::bits::group_bits;

pub const MEMORY_CARD_SIZE: usize = 0x2_0000usize;
pub const MEMORY_CARD_SECTOR_SIZE: usize = 128usize;
pub const MEMORY_CARD_SECTORS: usize = 1024usize;

pub const CTRL_TX_ENABLE: u16 = 0x0001u16;
pub const CTRL_DTR: u16 = 0x0002u16;
pub const CTRL_FORCE_RX: u16 = 0x0004u16;
pub const CTRL_ACK: u16 = 0x0010u16;
pub const CTRL_RESET: u16 = 0x0040u16;
pub const CTRL_TX_IRQ_ENABLE: u16 = 0x0400u16;
pub const CTRL_RX_IRQ_ENABLE: u16 = 0x0800u16;
pub const CTRL_DSR_IRQ_ENABLE: u16 = 0x1000u16;
pub const CTRL_PORT_SELECT: u16 = 0x2000u16;
pub const CTRL_WRITE_MASK: u16 = 0x3fafu16;

pub const STAT_TX_READY: u32 = 0x0001u32;
pub const STAT_RX_READY: u32 = 0x0002u32;
pub const STAT_TX_IDLE: u32 = 0x0004u32;
pub const STAT_DSR: u32 = 0x0080u32;
pub const STAT_IRQ: u32 = 0x0200u32;

pub const ACK_DELAY_CYCLES: u32 = 400u32;
pub const ACK_PULSE_CYCLES: u32 = 100u32;
pub const MEMORY_CARD_READ_DELAY_CYCLES: u32 = 31_000u32;

#[derive(Debug, Clone, Copy, PartialEq, Eq, Structural)]
pub enum MemoryCardImageError {
    InvalidSize,
}

#[derive(Debug, Clone, Copy, PartialEq, Eq, Structural)]
pub enum ControllerType {
    Digital,
    DualShock,
}

/// The sixteen pad buttons, in the order of their bits in the switch word.
#[derive(Debug, Clone, Copy, PartialEq, Eq, Structural)]
pub enum Button {
    Select,
    L3,
    R3,
    Start,
    Up,
    Right,
    Down,
    Left,
    L2,
    R2,
    L1,
    R1,
    Triangle,
    Circle,
    Cross,
    Square,
}

pub open spec fn button_bit_spec(b: Button) -> u16 {
    match b {
        Button::Select => 0,
        Button::L3 => 1,
        Button::R3 => 2,
        Button::Start => 3,
        Button::Up => 4,
        Button::Right => 5,
        Button::Down => 6,
        Button::Left => 7,
        Button::L2 => 8,
        Button::R2 => 9,
        Button::L1 => 10,
        Button::R1 => 11,
        Button::Triangle => 12,
        Button::Circle => 13,
        Button::Cross => 14,
        Button::Square => 15,
    }
}

impl Button {
    /// The button's bit number in the switch word.
    pub fn bit(self) -> (r: u16)
        ensures
            r == button_bit_spec(self),
            r < 16,
    {
        match self {
            Button::Select => 0,
            Button::L3 => 1,
            Button::R3 => 2,
            Button::Start => 3,
            Button::Up => 4,
            Button::Right => 5,
            Button::Down => 6,
            Button::Left => 7,
            Button::L2 => 8,
            Button::R2 => 9,
            Button::L1 => 10,
            Button::R1 => 11,
            Button::Triangle => 12,
            Button::Circle => 13,
            Button::Cross => 14,
            Button::Square => 15,
        }
    }
}

/// One byte exchanged with a device: its reply, and whether the device
/// acknowledges (asks for another byte), after how many extra cycles.
#[derive(Debug, Clone, Copy)]
pub struct TransferResponse {
    pub value: u8,
    pub acknowledge: bool,
    pub extra_ack_delay: u32,
}

impl TransferResponse {
    pub open spec fn spec_more(value: u8) -> TransferResponse {
        TransferResponse { value, acknowledge: true, extra_ack_delay: 0 }
    }

    pub open spec fn spec_last(value: u8) -> TransferResponse {
        TransferResponse { value, acknowledge: false, extra_ack_delay: 0 }
    }

    pub fn more(value: u8) -> (r: Self)
        ensures
            r == Self::spec_more(value),
    {
        TransferResponse { value, acknowledge: true, extra_ack_delay: 0 }
    }

    pub fn more_with_delay(value: u8, extra_ack_delay: u32) -> (r: Self)
        ensures
            r == (TransferResponse { value, acknowledge: true, extra_ack_delay }),
    {
        TransferResponse { value, acknowledge: true, extra_ack_delay }
    }

    pub fn last(value: u8) -> (r: Self)
        ensures
            r == Self::spec_last(value),
    {
        TransferResponse { value, acknowledge: false, extra_ack_delay: 0 }
    }
}

#[derive(Debug, Clone, Copy)]
pub struct Controller {
    pub kind: ControllerType,
    pub pressed: u16,
    pub analog_mode: bool,
    pub axes: [u8; 4],
    pub command: u8,
    pub step: usize,
}

/// The pad's reply to one byte of a poll: `0x42` starts a poll answered
/// with the ID, then 0x5a, the active-low switches, and (in analog mode)
/// the four axes; any other command is refused.
pub open spec fn controller_exchange_spec(c: Controller, value: u8) -> (Controller, TransferResponse) {
    if c.command == 0 {
        let n = Controller { command: value, step: 0, ..c };
        if value != 0x42 {
            (n, TransferResponse::spec_last(0xff))
        } else {
            (n, TransferResponse::spec_more(controller_id_spec(c)))
        }
    } else if c.command != 0x42 {
        (c, TransferResponse::spec_last(0xff))
    } else {
        let switches = !c.pressed;
        let response = if c.step == 0 {
            TransferResponse::spec_more(0x5a)
        } else if c.step == 1 {
            TransferResponse::spec_more(switches as u8)
        } else if c.step == 2 && c.analog_mode {
            TransferResponse::spec_more((switches >> 8u16) as u8)
        } else if c.step == 2 {
            TransferResponse::spec_last((switches >> 8u16) as u8)
        } else if c.step == 3 {
            TransferResponse::spec_more(c.axes[0])
        } else if c.step == 4 {
            TransferResponse::spec_more(c.axes[1])
        } else if c.step == 5 {
            TransferResponse::spec_more(c.axes[2])
        } else if c.step == 6 {
            TransferResponse::spec_last(c.axes[3])
        } else {
            TransferResponse::spec_last(0xff)
        };
        (Controller { step: if c.step < usize::MAX { (c.step + 1) as usize } else { c.step }, ..c }, response)
    }
}

/// 0x73 for a DualShock in analog mode, else 0x41 (digital pad).
pub open spec fn controller_id_spec(c: Controller) -> u8 {
    if c.kind == ControllerType::DualShock && c.analog_mode { 0x73 } else { 0x41 }
}

impl Controller {
    pub fn digital() -> (r: Self)
        ensures
            r.kind == ControllerType::Digital && r.pressed == 0 && !r.analog_mode,
            r.axes@ == seq![0x80u8, 0x80u8, 0x80u8, 0x80u8],
            r.command == 0 && r.step == 0,
    {
        let r = Controller { kind: ControllerType::Digital, pressed: 0, analog_mode: false, axes: [0x80u8; 4], command: 0, step: 0 };
        assert(r.axes@ =~= seq![0x80u8, 0x80u8, 0x80u8, 0x80u8]);
        r
    }

    pub fn dualshock() -> (r: Self)
        ensures
            r.kind == ControllerType::DualShock && r.pressed == 0 && r.analog_mode,
            r.axes@ == seq![0x80u8, 0x80u8, 0x80u8, 0x80u8],
            r.command == 0 && r.step == 0,
    {
        Controller { kind: ControllerType::DualShock, analog_mode: true, ..Self::digital() }
    }

    pub fn kind(&self) -> (r: ControllerType)
        ensures
            r == self.kind,
    {
        self.kind
    }

    pub fn set_button(&mut self, button: Button, pressed: bool)
        ensures
            *final(self) == (Controller {
                pressed: if pressed {
                    old(self).pressed | (1u16 << button_bit_spec(button))
                } else {
                    old(self).pressed & !(1u16 << button_bit_spec(button))
                },
                ..*old(self)
            }),
    {
        let mask = 1u16 << button.bit();
        if pressed {
            self.pressed = self.pressed | mask;
        } else {
            self.pressed = self.pressed & !mask;
        }
    }

    pub fn set_pressed_bits(&mut self, pressed: u16)
        ensures
            *final(self) == (Controller { pressed, ..*old(self) }),
    {
        self.pressed = pressed;
    }

    pub fn pressed_bits(&self) -> (r: u16)
        ensures
            r == self.pressed,
    {
        self.pressed
    }

    /// Only a DualShock can be in analog mode.
    pub fn set_analog_mode(&mut self, enabled: bool)
        ensures
            *final(self) == (Controller {
                analog_mode: old(self).kind == ControllerType::DualShock && enabled,
                ..*old(self)
            }),
    {
        self.analog_mode = self.kind == ControllerType::DualShock && enabled;
    }

    pub fn analog_mode(&self) -> (r: bool)
        ensures
            r == self.analog_mode,
    {
        self.analog_mode
    }

    pub fn set_analog_axes(&mut self, right_x: u8, right_y: u8, left_x: u8, left_y: u8)
        ensures
            final(self).axes@ == seq![right_x, right_y, left_x, left_y],
            *final(self) == (Controller { axes: final(self).axes, ..*old(self) }),
    {
        self.axes = [right_x, right_y, left_x, left_y];
        assert(self.axes@ =~= seq![right_x, right_y, left_x, left_y]);
    }

    pub fn reset_transaction(&mut self)
        ensures
            *final(self) == (Controller { command: 0, step: 0, ..*old(self) }),
    {
        self.command = 0;
        self.step = 0;
    }

    pub fn exchange(&mut self, value: u8) -> (r: TransferResponse)
        ensures
            (*final(self), r) == controller_exchange_spec(*old(self), value),
    {
        if self.command == 0 {
            self.command = value;
            self.step = 0;
            if value != 0x42 {
                return TransferResponse::last(0xff);
            }
            return TransferResponse::more(self.id());
        }
        if self.command != 0x42 {
            return TransferResponse::last(0xff);
        }
        let switches = !self.pressed;
        let response = if self.step == 0 {
            TransferResponse::more(0x5a)
        } else if self.step == 1 {
            TransferResponse::more(switches as u8)
        } else if self.step == 2 && self.analog_mode {
            TransferResponse::more((switches >> 8u16) as u8)
        } else if self.step == 2 {
            TransferResponse::last((switches >> 8u16) as u8)
        } else if self.step == 3 {
            TransferResponse::more(self.axes[0])
        } else if self.step == 4 {
            TransferResponse::more(self.axes[1])
        } else if self.step == 5 {
            TransferResponse::more(self.axes[2])
        } else if self.step == 6 {
            TransferResponse::last(self.axes[3])
        } else {
            TransferResponse::last(0xff)
        };
        if self.step < usize::MAX {
            self.step = self.step + 1;
        }
        response
    }

    pub fn id(&self) -> (r: u8)
        ensures
            r == controller_id_spec(*self),
    {
        if self.kind == ControllerType::DualShock && self.analog_mode {
            0x73
        } else {
            0x41
        }
    }
}

impl Default for Controller {
    fn default() -> (r: Self)
        ensures
            r.kind == ControllerType::Digital && r.pressed == 0 && !r.analog_mode && r.command == 0 && r.step == 0,
    {
        Self::digital()
    }
}

/// The XOR of a frame's first 127 bytes (byte 127 holds it on a valid frame).
pub open spec fn xor_prefix(frame: Seq<u8>, n: int) -> u8
    decreases n,
{
    if n <= 0 {
        0
    } else {
        xor_prefix(frame, n - 1) ^ frame[n - 1]
    }
}

pub open spec fn frame_checksum_spec(frame: Seq<u8>) -> u8 {
    xor_prefix(frame, 127)
}

/// The checksum of a frame: the XOR of its first 127 bytes.
pub fn frame_checksum(frame: &[u8]) -> (r: u8)
    requires
        frame@.len() >= 127,
    ensures
        r == frame_checksum_spec(frame@),
{
    let mut checksum: u8 = 0;
    let mut i: usize = 0;
    while i < 127
        invariant
            frame@.len() >= 127,
            i <= 127,
            checksum == xor_prefix(frame@, i as int),
        decreases 127 - i,
    {
        checksum = checksum ^ frame[i];
        i += 1;
    }
    checksum
}

/// Changing bytes at or after `n` does not change the XOR of the first `n`.
proof fn lemma_xor_prefix_frame(a: Seq<u8>, b: Seq<u8>, n: int)
    requires
        0 <= n <= a.len(),
        n <= b.len(),
        forall|i: int| 0 <= i < n ==> a[i] == b[i],
    ensures
        xor_prefix(a, n) == xor_prefix(b, n),
    decreases n,
{
    if n > 0 {
        lemma_xor_prefix_frame(a, b, n - 1);
    }
}

} // verus!

verus! {

#[derive(Debug, Clone)]
pub struct MemoryCard {
    pub data: Vec<u8>,
    pub flag: u8,
    pub dirty: bool,
    pub command: u8,
    pub step: usize,
    pub previous: u8,
    pub address: u16,
    pub write_buffer: Vec<u8>,
    pub write_result: u8,
}

/// Frame `f` of a card image holds its checksum in byte 127.
pub open spec fn valid_frame(data: Seq<u8>, f: int) -> bool {
    data[f * 128 + 127] == frame_checksum_spec(data.subrange(f * 128, f * 128 + 128))
}

/// The XOR checksum a sector read or write carries: the two address bytes
/// and the sector's 128 data bytes.
pub open spec fn sector_checksum_spec(address: u16, sector: Seq<u8>) -> u8 {
    xor_prefix(sector, 128) ^ ((address >> 8u16) as u8 ^ address as u8)
}

/// The image of a freshly formatted card.
pub open spec fn is_formatted_image(data: Seq<u8>) -> bool {
    &&& data.len() == MEMORY_CARD_SIZE
    &&& data[0] == 0x4d && data[1] == 0x43
    &&& forall|f: int| 0 <= f <= 35 ==> #[trigger] valid_frame(data, f)
    &&& forall|f: int| 1 <= f <= 15 ==> #[trigger] data[f * 128] == 0xa0
}

impl MemoryCard {
    pub open spec fn wf(&self) -> bool {
        self.data@.len() == MEMORY_CARD_SIZE
    }

    pub open spec fn spec_valid_address(&self) -> bool {
        (self.address as int) < MEMORY_CARD_SECTORS
    }

    /// A card with the standard empty file system: the "MC" header, fifteen
    /// free directory frames and twenty unused broken-sector frames, each
    /// with a valid checksum, and the write-test frame copied from the header.
    pub fn formatted() -> (r: Self)
        ensures
            r.wf(),
            is_formatted_image(r.data@),
            r.flag == 0x08 && !r.dirty && r.command == 0 && r.write_result == 0x47,
    {
        let mut data = vec![0xffu8; MEMORY_CARD_SIZE];
        format_memory_card(&mut data);
        Self::from_valid_data(data)
    }

    /// A card from an image file; the image must be exactly 128 KiB.
    pub fn from_bytes(data: Vec<u8>) -> (r: Result<Self, MemoryCardImageError>)
        ensures
            r is Ok <==> data@.len() == MEMORY_CARD_SIZE,
            r matches Ok(card) ==> card.wf() && card.data@ == data@ && card.flag == 0x08 && !card.dirty,
    {
        if data.len() != MEMORY_CARD_SIZE {
            return Err(MemoryCardImageError::InvalidSize);
        }
        Ok(Self::from_valid_data(data))
    }

    fn from_valid_data(data: Vec<u8>) -> (r: Self)
        ensures
            r.data@ == data@,
            r.flag == 0x08 && !r.dirty && r.command == 0 && r.step == 0 && r.previous == 0 && r.address == 0,
            r.write_buffer@.len() == 0 && r.write_result == 0x47,
    {
        MemoryCard {
            data,
            flag: 0x08,
            dirty: false,
            command: 0,
            step: 0,
            previous: 0,
            address: 0,
            write_buffer: Vec::new(),
            write_result: 0x47,
        }
    }

    pub fn image(&self) -> (r: &[u8])
        ensures
            r@ == self.data@,
    {
        self.data.as_slice()
    }

    pub fn is_dirty(&self) -> (r: bool)
        ensures
            r == self.dirty,
    {
        self.dirty
    }

    /// Whether the image must be written out: a card created for this run,
    /// or one written to since it was loaded.
    pub fn needs_saving(&self, newly_created: bool) -> (r: bool)
        ensures
            r == (newly_created || self.dirty),
    {
        newly_created || self.dirty
    }

    pub fn clear_dirty(&mut self)
        ensures
            *final(self) == (MemoryCard { dirty: false, ..*old(self) }),
    {
        self.dirty = false;
    }

    /// One of the 1024 sectors of 128 bytes.
    pub fn read_sector(&self, sector: usize) -> (r: Option<&[u8]>)
        requires
            self.wf(),
        ensures
            sector < MEMORY_CARD_SECTORS ==> (r matches Some(s) && s@ == self.data@.subrange(
                sector * 128,
                sector * 128 + 128,
            )),
            sector >= MEMORY_CARD_SECTORS ==> r is None,
    {
        if sector < MEMORY_CARD_SECTORS {
            let start = sector * MEMORY_CARD_SECTOR_SIZE;
            Some(&self.data.as_slice()[start..start + MEMORY_CARD_SECTOR_SIZE])
        } else {
            None
        }
    }

    pub fn reset_transaction(&mut self)
        ensures
            final(self).data == old(self).data && final(self).flag == old(self).flag && final(self).dirty
                == old(self).dirty,
            final(self).command == 0 && final(self).step == 0 && final(self).previous == 0 && final(self).address == 0,
            final(self).write_buffer@.len() == 0 && final(self).write_result == 0x47,
    {
        self.command = 0;
        self.step = 0;
        self.previous = 0;
        self.address = 0;
        self.write_buffer.clear();
        self.write_result = 0x47;
    }

    /// One byte of a card transaction: the first byte picks read (0x52),
    /// ID (0x53) or write (0x57) and is answered with the flag byte.
    pub fn exchange(&mut self, value: u8) -> (r: TransferResponse)
        requires
            old(self).wf(),
        ensures
            final(self).wf(),
            r == card_reply(*old(self), value),
            old(self).command == 0 ==> *final(self) == (MemoryCard { command: value, step: 0, previous: value, ..*old(self) }),
            old(self).command != 0 ==> {
                &&& final(self).previous == value
                &&& final(self).command == old(self).command
                &&& final(self).step == if old(self).step < usize::MAX { (old(self).step + 1) as usize } else { old(self).step }
            },
            old(self).command == 0x52 || old(self).command == 0x53 ==> final(self).data == old(self).data && final(self).dirty
                == old(self).dirty && final(self).flag == old(self).flag,
            old(self).command == 0x52 && old(self).step == 2 ==> final(self).address == (value as u16) << 8u16,
            old(self).command == 0x52 && old(self).step == 3 ==> final(self).address == old(self).address | value as u16,
            old(self).command == 0x57 && 4 <= old(self).step <= 131 ==> final(self).write_buffer@
                == old(self).write_buffer@.push(value) && final(self).data == old(self).data,
            old(self).command == 0x57 && old(self).step == 132 ==> finish_write_spec(
                *old(self),
                value,
                MemoryCard { step: old(self).step, previous: old(self).previous, ..*final(self) },
            ),
    {
        if self.command == 0 {
            self.command = value;
            self.step = 0;
            self.previous = value;
            if !(value == 0x52 || value == 0x53 || value == 0x57) {
                return TransferResponse::last(self.flag);
            }
            return TransferResponse::more(self.flag);
        }
        let response = if self.command == 0x52 {
            self.exchange_read(value)
        } else if self.command == 0x53 {
            self.exchange_id()
        } else if self.command == 0x57 {
            self.exchange_write(value)
        } else {
            TransferResponse::last(0xff)
        };
        self.previous = value;
        if self.step < usize::MAX {
            self.step = self.step + 1;
        }
        response
    }

    /// The read protocol: acknowledgement bytes, the sector address, a
    /// delayed command acknowledge, the echoed address, 128 data bytes, the
    /// checksum and the end byte.
    fn exchange_read(&mut self, value: u8) -> (r: TransferResponse)
        requires
            old(self).wf(),
        ensures
            final(self).wf(),
            final(self).data == old(self).data,
            final(self).command == old(self).command && final(self).step == old(self).step,
            old(self).step == 2 ==> final(self).address == (value as u16) << 8u16,
            old(self).step == 3 ==> final(self).address == old(self).address | value as u16,
            old(self).step != 2 && old(self).step != 3 ==> final(self).address == old(self).address,
            r == read_reply(*old(self)),
            final(self).previous == old(self).previous && final(self).flag == old(self).flag && final(self).dirty
                == old(self).dirty,
            old(self).step == 4 ==> r == (TransferResponse { value: 0x5c, acknowledge: true, extra_ack_delay: MEMORY_CARD_READ_DELAY_CYCLES }),
            8 <= old(self).step <= 135 && old(self).spec_valid_address() ==> r == TransferResponse::spec_more(
                old(self).data@[old(self).address * 128 + old(self).step - 8],
            ),
            old(self).step == 136 ==> r == TransferResponse::spec_more(
                if old(self).spec_valid_address() {
                    sector_checksum_spec(old(self).address, old(self).data@.subrange(old(self).address * 128, old(self).address * 128 + 128))
                } else {
                    (old(self).address >> 8u16) as u8 ^ old(self).address as u8
                },
            ),
            old(self).step == 137 ==> r == TransferResponse::spec_last(0x47),
    {
        let step = self.step;
        if step == 0 {
            TransferResponse::more(0x5a)
        } else if step == 1 {
            TransferResponse::more(0x5d)
        } else if step == 2 {
            self.address = (value as u16) << 8u16;
            TransferResponse::more(0x00)
        } else if step == 3 {
            self.address = self.address | value as u16;
            TransferResponse::more(self.previous)
        } else if step == 4 {
            TransferResponse::more_with_delay(0x5c, MEMORY_CARD_READ_DELAY_CYCLES)
        } else if step == 5 {
            TransferResponse::more(0x5d)
        } else if step == 6 {
            TransferResponse::more(if self.valid_address() { (self.address >> 8u16) as u8 } else { 0xff })
        } else if step == 7 && !self.valid_address() {
            TransferResponse::last(0xff)
        } else if step == 7 {
            TransferResponse::more(self.address as u8)
        } else if 8 <= step && step <= 135 {
            if self.valid_address() {
                let offset = self.address as usize * MEMORY_CARD_SECTOR_SIZE + step - 8;
                TransferResponse::more(self.data[offset])
            } else {
                TransferResponse::last(0xff)
            }
        } else if step == 136 {
            TransferResponse::more(self.read_checksum())
        } else if step == 137 {
            TransferResponse::last(0x47)
        } else {
            TransferResponse::last(0xff)
        }
    }

    /// The write protocol: acknowledgement bytes, the sector address, 128
    /// data bytes, the checksum (which commits the sector), two
    /// acknowledgement bytes and the result (0x47 good, 0x4e bad checksum,
    /// 0xff bad sector).
    fn exchange_write(&mut self, value: u8) -> (r: TransferResponse)
        requires
            old(self).wf(),
        ensures
            final(self).wf(),
            final(self).command == old(self).command && final(self).step == old(self).step,
            4 <= old(self).step <= 131 ==> final(self).write_buffer@ == old(self).write_buffer@.push(value)
                && final(self).data == old(self).data,
            old(self).step == 132 ==> finish_write_spec(*old(self), value, *final(self)),
            old(self).step == 135 ==> r == TransferResponse::spec_last(old(self).write_result),
            r == write_reply(*old(self)),
            final(self).previous == old(self).previous,
            final(self).step == old(self).step && final(self).command == old(self).command,
            old(self).step != 132 ==> final(self).data == old(self).data && final(self).dirty == old(self).dirty,
    {
        let step = self.step;
        if step == 0 {
            TransferResponse::more(0x5a)
        } else if step == 1 {
            TransferResponse::more(0x5d)
        } else if step == 2 {
            self.address = (value as u16) << 8u16;
            TransferResponse::more(0x00)
        } else if step == 3 {
            self.address = self.address | value as u16;
            TransferResponse::more(self.previous)
        } else if 4 <= step && step <= 131 {
            self.write_buffer.push(value);
            TransferResponse::more(self.previous)
        } else if step == 132 {
            self.finish_write(value);
            TransferResponse::more(self.previous)
        } else if step == 133 {
            TransferResponse::more(0x5c)
        } else if step == 134 {
            TransferResponse::more(0x5d)
        } else if step == 135 {
            TransferResponse::last(self.write_result)
        } else {
            TransferResponse::last(0xff)
        }
    }

    /// The ID command's eight reply bytes.
    fn exchange_id(&mut self) -> (r: TransferResponse)
        ensures
            *final(self) == *old(self),
            r == id_reply(*old(self)),
    {
        let step = self.step;
        if step == 0 {
            TransferResponse::more(0x5a)
        } else if step == 1 {
            TransferResponse::more(0x5d)
        } else if step == 2 {
            TransferResponse::more(0x5c)
        } else if step == 3 {
            TransferResponse::more(0x5d)
        } else if step == 4 {
            TransferResponse::more(0x04)
        } else if step == 5 {
            TransferResponse::more(0x00)
        } else if step == 6 {
            TransferResponse::more(0x00)
        } else if step == 7 {
            TransferResponse::last(0x80)
        } else {
            TransferResponse::last(0xff)
        }
    }

    fn valid_address(&self) -> (r: bool)
        ensures
            r == self.spec_valid_address(),
    {
        (self.address as usize) < MEMORY_CARD_SECTORS
    }

    /// The checksum of the addressed sector as a read sends it.
    fn read_checksum(&self) -> (r: u8)
        requires
            self.wf(),
        ensures
            r == if self.spec_valid_address() {
                sector_checksum_spec(self.address, self.data@.subrange(self.address * 128, self.address * 128 + 128))
            } else {
                (self.address >> 8u16) as u8 ^ self.address as u8
            },
    {
        let base = (self.address >> 8u16) as u8 ^ self.address as u8;
        if !self.valid_address() {
            return base;
        }
        let start = self.address as usize * MEMORY_CARD_SECTOR_SIZE;
        let ghost sector = self.data@.subrange(start as int, start + 128);
        let mut x: u8 = 0;
        let mut i: usize = 0;
        while i < 128
            invariant
                self.wf(),
                start + 128 <= MEMORY_CARD_SIZE,
                sector == self.data@.subrange(start as int, start + 128),
                i <= 128,
                x == xor_prefix(sector, i as int),
            decreases 128 - i,
        {
            x = x ^ self.data[start + i];
            i += 1;
        }
        assert((x ^ base) == (base ^ x)) by (bit_vector);
        x ^ base
    }

    /// Commits the written sector when the address is valid, all 128 bytes
    /// arrived and the checksum matches.
    fn finish_write(&mut self, checksum: u8)
        requires
            old(self).wf(),
        ensures
            final(self).wf(),
            finish_write_spec(*old(self), checksum, *final(self)),
    {
        if !self.valid_address() {
            self.write_result = 0xff;
            return;
        }
        let base = (self.address >> 8u16) as u8 ^ self.address as u8;
        let mut x: u8 = 0;
        let mut i: usize = 0;
        while i < self.write_buffer.len()
            invariant
                i <= self.write_buffer@.len(),
                x == xor_prefix(self.write_buffer@, i as int),
            decreases self.write_buffer@.len() - i,
        {
            x = x ^ self.write_buffer[i];
            i += 1;
        }
        let expected = x ^ base;
        if self.write_buffer.len() != MEMORY_CARD_SECTOR_SIZE || checksum != expected {
            self.write_result = 0x4e;
            return;
        }
        let start = self.address as usize * MEMORY_CARD_SECTOR_SIZE;
        let mut k: usize = 0;
        while k < MEMORY_CARD_SECTOR_SIZE
            invariant
                self.wf(),
                self.write_buffer@.len() == MEMORY_CARD_SECTOR_SIZE,
                *self == (MemoryCard { data: self.data, ..*old(self) }),
                start + 128 <= MEMORY_CARD_SIZE,
                start == old(self).address * 128,
                k <= 128,
                forall|j: int| 0 <= j < start ==> #[trigger] self.data@[j] == old(self).data@[j],
                forall|j: int| start + 128 <= j < MEMORY_CARD_SIZE ==> #[trigger] self.data@[j] == old(self).data@[j],
                forall|j: int| start <= j < start + k ==> #[trigger] self.data@[j] == self.write_buffer@[j - start],
                forall|j: int| start + k <= j < start + 128 ==> #[trigger] self.data@[j] == old(self).data@[j],
            decreases 128 - k,
        {
            self.data.set(start + k, self.write_buffer[k]);
            k += 1;
        }
        assert(self.data@ =~= old(self).data@.subrange(0, start as int) + old(self).write_buffer@ + old(self).data@.subrange(
            start + 128,
            MEMORY_CARD_SIZE as int,
        ));
        self.flag = self.flag & !0x08u8;
        self.dirty = true;
        self.write_result = 0x47;
    }
}

/// The result of the checksum byte of a write: a bad sector number sets
/// the result to 0xff, a short buffer or a wrong checksum to 0x4e, and a
/// good write stores the sector, clears the "new card" flag, marks the
/// card dirty and sets 0x47.
/// The reply to the next byte of a read transaction: acknowledgement
/// bytes, the echoed address, a delayed command acknowledge, the sector's
/// 128 bytes, its checksum and the end byte; a bad sector ends early.
pub open spec fn read_reply(c: MemoryCard) -> TransferResponse {
    let step = c.step;
    let valid = c.spec_valid_address();
    if step == 0 {
        TransferResponse::spec_more(0x5a)
    } else if step == 1 {
        TransferResponse::spec_more(0x5d)
    } else if step == 2 {
        TransferResponse::spec_more(0x00)
    } else if step == 3 {
        TransferResponse::spec_more(c.previous)
    } else if step == 4 {
        TransferResponse { value: 0x5c, acknowledge: true, extra_ack_delay: MEMORY_CARD_READ_DELAY_CYCLES }
    } else if step == 5 {
        TransferResponse::spec_more(0x5d)
    } else if step == 6 {
        TransferResponse::spec_more(if valid { (c.address >> 8u16) as u8 } else { 0xff })
    } else if step == 7 {
        if valid { TransferResponse::spec_more(c.address as u8) } else { TransferResponse::spec_last(0xff) }
    } else if 8 <= step <= 135 {
        if valid {
            TransferResponse::spec_more(c.data@[c.address * 128 + step - 8])
        } else {
            TransferResponse::spec_last(0xff)
        }
    } else if step == 136 {
        TransferResponse::spec_more(
            if valid {
                sector_checksum_spec(c.address, c.data@.subrange(c.address * 128, c.address * 128 + 128))
            } else {
                (c.address >> 8u16) as u8 ^ c.address as u8
            },
        )
    } else if step == 137 {
        TransferResponse::spec_last(0x47)
    } else {
        TransferResponse::spec_last(0xff)
    }
}

/// The reply to the next byte of a write transaction: acknowledgement
/// bytes, the previous byte echoed while the address, data and checksum go
/// in, two acknowledgement bytes and the result.
pub open spec fn write_reply(c: MemoryCard) -> TransferResponse {
    let step = c.step;
    if step == 0 {
        TransferResponse::spec_more(0x5a)
    } else if step == 1 {
        TransferResponse::spec_more(0x5d)
    } else if step == 2 {
        TransferResponse::spec_more(0x00)
    } else if 3 <= step <= 132 {
        TransferResponse::spec_more(c.previous)
    } else if step == 133 {
        TransferResponse::spec_more(0x5c)
    } else if step == 134 {
        TransferResponse::spec_more(0x5d)
    } else if step == 135 {
        TransferResponse::spec_last(c.write_result)
    } else {
        TransferResponse::spec_last(0xff)
    }
}

/// The reply to the next byte of a GetID transaction.
pub open spec fn id_reply(c: MemoryCard) -> TransferResponse {
    let step = c.step;
    if step == 0 {
        TransferResponse::spec_more(0x5a)
    } else if step == 1 {
        TransferResponse::spec_more(0x5d)
    } else if step == 2 {
        TransferResponse::spec_more(0x5c)
    } else if step == 3 {
        TransferResponse::spec_more(0x5d)
    } else if step == 4 {
        TransferResponse::spec_more(0x04)
    } else if step == 5 || step == 6 {
        TransferResponse::spec_more(0x00)
    } else if step == 7 {
        TransferResponse::spec_last(0x80)
    } else {
        TransferResponse::spec_last(0xff)
    }
}

/// A card's reply to a byte: the command byte is answered with the flag
/// (acknowledged for read, GetID and write), later bytes by the command's
/// protocol.
pub open spec fn card_reply(c: MemoryCard, value: u8) -> TransferResponse {
    if c.command == 0 {
        if value == 0x52 || value == 0x53 || value == 0x57 {
            TransferResponse::spec_more(c.flag)
        } else {
            TransferResponse::spec_last(c.flag)
        }
    } else if c.command == 0x52 {
        read_reply(c)
    } else if c.command == 0x53 {
        id_reply(c)
    } else if c.command == 0x57 {
        write_reply(c)
    } else {
        TransferResponse::spec_last(0xff)
    }
}

pub open spec fn finish_write_spec(o: MemoryCard, checksum: u8, n: MemoryCard) -> bool {
    let start = o.address * 128;
    if !o.spec_valid_address() {
        n == MemoryCard { write_result: 0xff, ..o }
    } else if o.write_buffer@.len() != 128 || checksum != (xor_prefix(o.write_buffer@, o.write_buffer@.len() as int) ^ ((o.address
        >> 8u16) as u8 ^ o.address as u8)) {
        n == MemoryCard { write_result: 0x4e, ..o }
    } else {
        &&& n.data@ == o.data@.subrange(0, start) + o.write_buffer@ + o.data@.subrange(start + 128, MEMORY_CARD_SIZE as int)
        &&& n == MemoryCard { data: n.data, flag: o.flag & !0x08u8, dirty: true, write_result: 0x47, ..o }
    }
}

/// A write that the card accepts is read back unchanged: the sector
/// written holds the 128 bytes sent, and every other sector keeps its bytes.
pub proof fn lemma_accepted_write_reads_back(o: MemoryCard, checksum: u8, n: MemoryCard)
    requires
        o.wf(),
        finish_write_spec(o, checksum, n),
        n.write_result == 0x47,
    ensures
        n.wf(),
        n.dirty,
        n.data@.subrange(o.address * 128, o.address * 128 + 128) == o.write_buffer@,
        forall|s: int|
            0 <= s < MEMORY_CARD_SECTORS && s != o.address ==> #[trigger] n.data@.subrange(s * 128, s * 128 + 128)
                == o.data@.subrange(s * 128, s * 128 + 128),
{
    let start = o.address * 128;
    assert(n.data@.subrange(start, start + 128) =~= o.write_buffer@);
    assert forall|s: int| 0 <= s < MEMORY_CARD_SECTORS && s != o.address implies #[trigger] n.data@.subrange(
        s * 128,
        s * 128 + 128,
    ) == o.data@.subrange(s * 128, s * 128 + 128) by {
        if s < o.address {
            assert(s * 128 + 128 <= start);
        } else {
            assert(s * 128 >= start + 128);
        }
        assert(n.data@.subrange(s * 128, s * 128 + 128) =~= o.data@.subrange(s * 128, s * 128 + 128));
    }
}

impl Default for MemoryCard {
    fn default() -> (r: Self)
        ensures
            r.wf(),
            is_formatted_image(r.data@),
    {
        Self::formatted()
    }
}

/// Writes the empty file system into a card image.
fn format_memory_card(data: &mut Vec<u8>)
    requires
        old(data)@.len() == MEMORY_CARD_SIZE,
    ensures
        is_formatted_image(final(data)@),
{
    let mut i: usize = 0;
    while i < MEMORY_CARD_SIZE
        invariant
            data@.len() == MEMORY_CARD_SIZE,
            i <= MEMORY_CARD_SIZE,
        decreases MEMORY_CARD_SIZE - i,
    {
        data.set(i, 0xff);
        i += 1;
    }
    write_frame(data, 0, 0x4d, 0x43, 0x00, 0x00);
    let mut frame: usize = 1;
    while frame <= 15
        invariant
            data@.len() == MEMORY_CARD_SIZE,
            1 <= frame <= 16,
            data@[0] == 0x4d && data@[1] == 0x43,
            forall|f: int| 0 <= f < frame ==> #[trigger] valid_frame(data@, f),
            forall|f: int| 1 <= f < frame ==> #[trigger] data@[f * 128] == 0xa0,
        decreases 16 - frame,
    {
        let ghost before = data@;
        write_frame(data, frame, 0xa0, 0x00, 0xff, 0x00);
        assert forall|f: int| 0 <= f < frame + 1 implies #[trigger] valid_frame(data@, f) by {
            if f < frame {
                assert(valid_frame(before, f));
            }
        }
        assert forall|f: int| 1 <= f < frame + 1 implies #[trigger] data@[f * 128] == 0xa0 by {
            if f < frame {
                assert(before[f * 128] == 0xa0);
            }
        }
        frame += 1;
    }
    while frame <= 35
        invariant
            data@.len() == MEMORY_CARD_SIZE,
            16 <= frame <= 36,
            data@[0] == 0x4d && data@[1] == 0x43,
            forall|f: int| 0 <= f < frame ==> #[trigger] valid_frame(data@, f),
            forall|f: int| 1 <= f <= 15 ==> #[trigger] data@[f * 128] == 0xa0,
        decreases 36 - frame,
    {
        let ghost before = data@;
        write_frame(data, frame, 0xff, 0xff, 0x00, 0xff);
        assert forall|f: int| 0 <= f < frame + 1 implies #[trigger] valid_frame(data@, f) by {
            if f < frame {
                assert(valid_frame(before, f));
            }
        }
        assert forall|f: int| 1 <= f <= 15 implies #[trigger] data@[f * 128] == 0xa0 by {
            assert(before[f * 128] == 0xa0);
        }
        frame += 1;
    }
    let write_test: usize = 63 * MEMORY_CARD_SECTOR_SIZE;
    let mut k: usize = 0;
    while k < MEMORY_CARD_SECTOR_SIZE
        invariant
            data@.len() == MEMORY_CARD_SIZE,
            write_test == 63 * 128,
            k <= 128,
            data@[0] == 0x4d && data@[1] == 0x43,
            forall|f: int| 0 <= f <= 35 ==> #[trigger] valid_frame(data@, f),
            forall|f: int| 1 <= f <= 15 ==> #[trigger] data@[f * 128] == 0xa0,
        decreases 128 - k,
    {
        let byte = data[k];
        let ghost before = data@;
        data.set(write_test + k, byte);
        proof {
            assert forall|f: int| 0 <= f <= 35 implies #[trigger] valid_frame(data@, f) by {
                assert(valid_frame(before, f));
                lemma_frame_unchanged(before, data@, f);
            }
        }
        k += 1;
    }
}

/// A frame's checksum property survives changes to other frames.
proof fn lemma_frame_unchanged(a: Seq<u8>, b: Seq<u8>, f: int)
    requires
        0 <= f,
        f * 128 + 128 <= a.len(),
        a.len() == b.len(),
        forall|i: int| f * 128 <= i < f * 128 + 128 ==> a[i] == b[i],
    ensures
        valid_frame(a, f) ==> valid_frame(b, f),
{
    lemma_xor_prefix_frame(a.subrange(f * 128, f * 128 + 128), b.subrange(f * 128, f * 128 + 128), 127);
}

/// Fills frame `frame` with zeros, sets bytes 0 and 1 to `b0` and `b1`,
/// bytes 2 and 3 to `b23`, bytes 8 and 9 to `b89`, and stores the checksum.
fn write_frame(data: &mut Vec<u8>, frame: usize, b0: u8, b1: u8, b89: u8, b23: u8)
    requires
        old(data)@.len() == MEMORY_CARD_SIZE,
        frame <= 35,
    ensures
        final(data)@.len() == MEMORY_CARD_SIZE,
        valid_frame(final(data)@, frame as int),
        final(data)@[frame * 128] == b0,
        final(data)@[frame * 128 + 1] == b1,
        forall|i: int| 0 <= i < MEMORY_CARD_SIZE && !(frame * 128 <= i < frame * 128 + 128) ==> #[trigger] final(data)@[i]
            == old(data)@[i],
        forall|f: int| 0 <= f <= 35 && f != frame && #[trigger] valid_frame(old(data)@, f) ==> valid_frame(final(data)@, f),
{
    let start = frame * MEMORY_CARD_SECTOR_SIZE;
    let mut i: usize = 0;
    while i < MEMORY_CARD_SECTOR_SIZE
        invariant
            data@.len() == MEMORY_CARD_SIZE,
            start == frame * 128,
            frame <= 35,
            i <= 128,
            forall|j: int| 0 <= j < MEMORY_CARD_SIZE && !(start <= j < start + 128) ==> #[trigger] data@[j] == old(data)@[j],
        decreases 128 - i,
    {
        data.set(start + i, 0);
        i += 1;
    }
    data.set(start, b0);
    data.set(start + 1, b1);
    data.set(start + 2, b23);
    data.set(start + 3, b23);
    data.set(start + 8, b89);
    data.set(start + 9, b89);
    let checksum = frame_checksum(&data.as_slice()[start..start + MEMORY_CARD_SECTOR_SIZE]);
    let ghost before = data@;
    data.set(start + 127, checksum);
    proof {
        lemma_xor_prefix_frame(before.subrange(start as int, start + 128), data@.subrange(start as int, start + 128), 127);
        assert forall|f: int| 0 <= f <= 35 && f != frame && #[trigger] valid_frame(old(data)@, f) implies valid_frame(data@, f) by {
            lemma_frame_unchanged(old(data)@, data@, f);
        }
    }
}

} // verus!

verus! {

#[derive(Debug, Clone, Copy, PartialEq, Eq, Structural)]
pub enum SelectedDevice {
    Idle,
    Controller,
    MemoryCard,
}

/// The `k`th byte that successive data reads return: the FIFO's bytes in
/// order, then the last byte popped (or the last byte read when the FIFO
/// was empty) again.
pub open spec fn rx_byte(fifo: Seq<u8>, last: u8, k: int) -> u8 {
    if k < fifo.len() {
        fifo[k]
    } else if fifo.len() > 0 {
        fifo[fifo.len() - 1]
    } else {
        last
    }
}

#[derive(Debug, Clone)]
pub struct JoySerial {
    pub mode: u16,
    pub control: u16,
    pub baud: u16,
    pub rx_fifo: VecDeque<u8>,
    pub last_rx: u8,
    pub pending_tx: Option<u8>,
    pub transfer_cycles: u32,
    pub ack_delay_cycles: u32,
    pub ack_pulse_cycles: u32,
    pub irq: bool,
    pub selected: SelectedDevice,
    pub controllers: [Option<Controller>; 2],
    pub memory_cards: [Option<MemoryCard>; 2],
}

/// A pad at the start of a new transaction.
pub open spec fn reset_controller_spec(c: Option<Controller>) -> Option<Controller> {
    match c {
        Some(p) => Some(Controller { command: 0, step: 0, ..p }),
        None => None,
    }
}

/// The port JOY_CTRL selects.
pub open spec fn selected_port(j: JoySerial) -> int {
    if j.control & CTRL_PORT_SELECT != 0 { 1 } else { 0 }
}

/// The reply on the bus to byte `value`: with no device selected, 0x01
/// selects the port's pad and 0x81 its card (each answered 0xff with an
/// acknowledge); afterwards the selected device answers.  A byte nothing
/// answers gets 0xff and no acknowledge.
pub open spec fn device_reply(j: JoySerial, value: u8) -> TransferResponse {
    let port = selected_port(j);
    match j.selected {
        SelectedDevice::Idle => if value == 0x01 && j.controllers[port] is Some {
            TransferResponse::spec_more(0xff)
        } else if value == 0x81 && j.memory_cards[port] is Some {
            TransferResponse::spec_more(0xff)
        } else {
            TransferResponse::spec_last(0xff)
        },
        SelectedDevice::Controller => match j.controllers[port] {
            Some(c) => controller_exchange_spec(c, value).1,
            None => TransferResponse::spec_last(0xff),
        },
        SelectedDevice::MemoryCard => match j.memory_cards[port] {
            Some(c) => card_reply(c, value),
            None => TransferResponse::spec_last(0xff),
        },
    }
}

/// How many received bytes raise the RX interrupt: 1, 2, 4 or 8 by
/// JOY_CTRL bits 8-9.
pub open spec fn rx_threshold(control: u16) -> int {
    let t = (control >> 8u16) & 3;
    if t == 0 { 1 } else if t == 1 { 2 } else if t == 2 { 4 } else { 8 }
}

/// Whether a finished byte raises the interrupt: on TX, or on RX once the
/// FIFO holds the threshold.
pub open spec fn transfer_interrupt(n: JoySerial) -> bool {
    n.control & CTRL_TX_IRQ_ENABLE != 0 || (n.control & CTRL_RX_IRQ_ENABLE != 0 && n.rx_fifo@.len() >= rx_threshold(
        n.control,
    ))
}

/// What finishing the byte in flight does, from `o` to `n`, raising the
/// interrupt flag when `r`: the byte goes to the device (or is answered
/// 0xff without DTR), the reply enters the RX FIFO (overwriting its last
/// byte when full) while receiving is enabled, a forced receive ends, an
/// acknowledged reply starts the acknowledge delay, and the interrupt
/// rises on TX, or on RX once the FIFO reaches the threshold.
pub open spec fn transfer_finished(o: JoySerial, n: JoySerial, r: bool) -> bool {
    let value = match o.pending_tx {
        Some(v) => v,
        None => 0u8,
    };
    let reply = if o.control & CTRL_DTR != 0 { device_reply(o, value) } else { TransferResponse::spec_last(0xff) };
    let receive = o.control & (CTRL_DTR | CTRL_FORCE_RX) != 0;
    let interrupt = transfer_interrupt(n);
    &&& n.pending_tx is None
    &&& n.rx_fifo@ == if receive {
        (if o.rx_fifo@.len() == 8 { o.rx_fifo@.drop_last() } else { o.rx_fifo@ }).push(reply.value)
    } else {
        o.rx_fifo@
    }
    &&& n.control == if o.control & CTRL_FORCE_RX != 0 { o.control & !CTRL_FORCE_RX } else { o.control }
    &&& n.ack_delay_cycles == if reply.acknowledge {
        if ACK_DELAY_CYCLES + reply.extra_ack_delay > u32::MAX { u32::MAX } else { (ACK_DELAY_CYCLES + reply.extra_ack_delay) as u32 }
    } else {
        o.ack_delay_cycles
    }
    &&& n.irq == (o.irq || interrupt)
    &&& r == (interrupt && !o.irq)
    &&& n.mode == o.mode && n.baud == o.baud && n.last_rx == o.last_rx
    &&& n.transfer_cycles == o.transfer_cycles && n.ack_pulse_cycles == o.ack_pulse_cycles
}

/// JOY_STAT: TX ready and idle while nothing is being sent, RX ready while
/// the FIFO holds bytes, DSR during the acknowledge pulse, and the IRQ flag.
pub open spec fn joy_status_spec(j: JoySerial) -> u32 {
    (if j.pending_tx is None { STAT_TX_READY | STAT_TX_IDLE } else { 0u32 }) | (if j.rx_fifo@.len() > 0 {
        STAT_RX_READY
    } else {
        0u32
    }) | (if j.ack_pulse_cycles != 0 { STAT_DSR } else { 0u32 }) | (if j.irq { STAT_IRQ } else { 0u32 })
}

/// The time to shift one byte: eight bit periods of the baud reload times
/// the mode's factor (rounded down to even, at least one).
pub open spec fn byte_cycles_spec(mode: u16, baud: u16) -> u32 {
    let factor: int = if mode & 3 == 2 { 16 } else if mode & 3 == 3 { 64 } else { 1 };
    let p0 = ((baud * factor) as u32 & !1u32) as int;
    let period = if p0 < 1 { 1 } else { p0 };
    if period * 8 > u32::MAX { u32::MAX } else { (period * 8) as u32 }
}

/// What a write of `value` to JOY_CTRL does to the port.
pub open spec fn joy_control_written(o: JoySerial, value: u16, n: JoySerial) -> bool {
    &&& (value & CTRL_RESET != 0 ==> n.control == 0 && !n.irq && n.rx_fifo@.len() == 0)
    &&& (value & CTRL_RESET == 0 ==> {
        let c = value & CTRL_WRITE_MASK & !(CTRL_ACK | CTRL_RESET);
        &&& n.control == c
        &&& n.irq == if value & CTRL_ACK != 0 && !(c & CTRL_DSR_IRQ_ENABLE != 0
            && o.ack_pulse_cycles != 0) {
            false
        } else {
            o.irq
        }
        &&& n.rx_fifo == o.rx_fifo && n.pending_tx == o.pending_tx
    })
}

/// A byte read of JOY_RX_DATA: the byte `r` it gives and the port after it.
pub open spec fn joy_data_read8(o: JoySerial, n: JoySerial, r: u8) -> bool {
    &&& (r == rx_byte(o.rx_fifo@, o.last_rx, 0))
    &&& (n.rx_fifo@ == o.rx_fifo@.skip(if o.rx_fifo@.len() > 0 { 1int } else { 0int }))
    &&& (n.last_rx == r)
    &&& (n == (JoySerial { rx_fifo: n.rx_fifo, last_rx: r, ..o }))
}

/// How the port advances by `cycles` CPU cycles, and whether its interrupt flag rose (`r`).
pub open spec fn joy_ticked(o: JoySerial, cycles: u32, n: JoySerial, r: bool) -> bool {
    &&& (r ==> !o.irq && n.irq)
    &&& (o.irq ==> n.irq)
    &&& (({
        let count_down = |c: u32| if c > cycles { (c - cycles) as u32 } else { 0u32 };
        let delay_ends = o.ack_delay_cycles != 0 && count_down(o.ack_delay_cycles) == 0;
        let dsr = delay_ends && o.control & CTRL_DSR_IRQ_ENABLE != 0;
        let mid = JoySerial {
            ack_pulse_cycles: if delay_ends { ACK_PULSE_CYCLES } else { count_down(o.ack_pulse_cycles) },
            ack_delay_cycles: count_down(o.ack_delay_cycles),
            irq: o.irq || dsr,
            transfer_cycles: if o.pending_tx is Some && o.control & CTRL_TX_ENABLE != 0 {
                count_down(o.transfer_cycles)
            } else {
                o.transfer_cycles
            },
            ..o
        };
        let finishes = o.pending_tx is Some && o.control & CTRL_TX_ENABLE != 0 && o.transfer_cycles != 0
            && count_down(o.transfer_cycles) == 0;
        &&& !finishes ==> n == mid && r == (dsr && !o.irq)
        &&& finishes ==> {
            let edge = transfer_interrupt(n) && !mid.irq;
            transfer_finished(mid, n, edge) && r == ((dsr && !o.irq) || edge)
        }
    }))
}

/// A word read of JOY_RX_DATA: the word `r` it gives and the port after it.
pub open spec fn joy_data_read32(o: JoySerial, n: JoySerial, r: u32) -> bool {
    &&& (({
        let f = o.rx_fifo@;
        let last = o.last_rx;
        r == (rx_byte(f, last, 0) as u32) | ((rx_byte(f, last, 1) as u32) << 8u32) | ((rx_byte(f, last, 2) as u32)
            << 16u32) | ((rx_byte(f, last, 3) as u32) << 24u32)
    }))
    &&& (n.rx_fifo@ == o.rx_fifo@.skip(if o.rx_fifo@.len() < 4 { o.rx_fifo@.len() as int } else { 4int }))
    &&& (n.last_rx == rx_byte(o.rx_fifo@, o.last_rx, 3))
    &&& (n == (JoySerial { rx_fifo: n.rx_fifo, last_rx: n.last_rx, ..o }))
}

/// A halfword read of JOY_RX_DATA: the halfword `r` it gives and the port after it.
pub open spec fn joy_data_read16(o: JoySerial, n: JoySerial, r: u16) -> bool {
    &&& (({
        let lo = rx_byte(o.rx_fifo@, o.last_rx, 0);
        let hi = if o.rx_fifo@.len() > 1 { o.rx_fifo@[1] } else { lo };
        r == (lo as u16) | ((hi as u16) << 8u16)
    }))
    &&& (n.rx_fifo@ == o.rx_fifo@.skip(if o.rx_fifo@.len() > 0 { 1int } else { 0int }))
    &&& (n == (JoySerial { rx_fifo: n.rx_fifo, last_rx: n.last_rx, ..o }))
}

impl JoySerial {
    pub open spec fn wf(&self) -> bool {
        &&& self.rx_fifo@.len() <= 8
        &&& forall|i: int| 0 <= i < 2 ==> (#[trigger] self.memory_cards[i] matches Some(c) ==> c.wf())
    }

    pub fn new() -> (r: Self)
        ensures
            r.wf(),
            r.mode == 0 && r.control == 0 && r.baud == 0,
            r.rx_fifo@.len() == 0 && r.pending_tx is None && !r.irq,
            r.selected == SelectedDevice::Idle,
            r.controllers[0] matches Some(c) && c.kind == ControllerType::Digital,
            r.controllers[1] is None,
            r.memory_cards[0] is None && r.memory_cards[1] is None,
    {
        JoySerial {
            mode: 0,
            control: 0,
            baud: 0,
            rx_fifo: VecDeque::new(),
            last_rx: 0,
            pending_tx: None,
            transfer_cycles: 0,
            ack_delay_cycles: 0,
            ack_pulse_cycles: 0,
            irq: false,
            selected: SelectedDevice::Idle,
            controllers: [Some(Controller::digital()), None],
            memory_cards: [None, None],
        }
    }

    /// Clears the port's registers, FIFO, timers and interrupt, and ends any transaction.
    pub fn reset(&mut self)
        requires
            old(self).wf(),
        ensures
            final(self).wf(),
            final(self).mode == 0 && final(self).control == 0 && final(self).baud == 0,
            final(self).rx_fifo@.len() == 0 && final(self).pending_tx is None && !final(self).irq,
            final(self).ack_delay_cycles == 0 && final(self).ack_pulse_cycles == 0,
            final(self).selected == SelectedDevice::Idle,
    {
        self.mode = 0;
        self.control = 0;
        self.baud = 0;
        self.rx_fifo.clear();
        self.last_rx = 0;
        self.pending_tx = None;
        self.transfer_cycles = 0;
        self.ack_delay_cycles = 0;
        self.ack_pulse_cycles = 0;
        self.irq = false;
        self.reset_transaction();
    }

    pub fn status(&self) -> (r: u32)
        ensures
            r == joy_status_spec(*self),
    {
        let tx: u32 = if self.pending_tx.is_none() { STAT_TX_READY | STAT_TX_IDLE } else { 0 };
        let rx: u32 = if self.rx_fifo.len() > 0 { STAT_RX_READY } else { 0 };
        let dsr: u32 = if self.ack_pulse_cycles != 0 { STAT_DSR } else { 0 };
        let irq: u32 = if self.irq { STAT_IRQ } else { 0 };
        tx | rx | dsr | irq
    }

    pub fn mode(&self) -> (r: u16)
        ensures
            r == self.mode,
    {
        self.mode
    }

    pub fn control(&self) -> (r: u16)
        ensures
            r == self.control,
    {
        self.control
    }

    pub fn baud(&self) -> (r: u16)
        ensures
            r == self.baud,
    {
        self.baud
    }

    pub fn write_mode(&mut self, value: u16)
        ensures
            *final(self) == (JoySerial { mode: value & 0x013f, ..*old(self) }),
    {
        self.mode = value & 0x013f;
    }

    /// JOY_CTRL: bit 6 resets the port; bit 4 acknowledges the interrupt
    /// (unless a DSR interrupt is still being signalled); dropping DTR or
    /// switching ports ends the transaction.
    pub fn write_control(&mut self, value: u16)
        requires
            old(self).wf(),
        ensures
            final(self).wf(),
            joy_control_written(*old(self), value, *final(self)),
    {
        if (value & CTRL_RESET) != 0 {
            self.reset();
            return;
        }
        let old_control = self.control;
        self.control = value & CTRL_WRITE_MASK & !(CTRL_ACK | CTRL_RESET);
        if (value & CTRL_ACK) != 0 && !((self.control & CTRL_DSR_IRQ_ENABLE) != 0 && self.ack_pulse_cycles != 0) {
            self.irq = false;
        }
        let old_port = (old_control & CTRL_PORT_SELECT) != 0;
        let new_port = (self.control & CTRL_PORT_SELECT) != 0;
        if (old_control & CTRL_DTR) != 0 && ((self.control & CTRL_DTR) == 0 || old_port != new_port) {
            self.reset_transaction();
        }
    }

    pub fn write_baud(&mut self, value: u16)
        ensures
            *final(self) == (JoySerial { baud: value, ..*old(self) }),
    {
        self.baud = value;
    }

    /// JOY_TX_DATA: starts shifting a byte out.
    pub fn write_data8(&mut self, value: u8)
        ensures
            *final(self) == (JoySerial {
                pending_tx: Some(value),
                transfer_cycles: byte_cycles_spec(old(self).mode, old(self).baud),
                ..*old(self)
            }),
    {
        self.pending_tx = Some(value);
        self.transfer_cycles = self.byte_cycles();
    }

    /// JOY_RX_DATA: the oldest received byte (the last one again when the FIFO is empty).
    pub fn read_data8(&mut self) -> (r: u8)
        requires
            old(self).wf(),
        ensures
            final(self).wf(),
            joy_data_read8(*old(self), *final(self), r),
    {
        if self.rx_fifo.len() > 0 {
            match self.rx_fifo.pop_front() {
                Some(value) => {
                    self.last_rx = value;
                },
                None => {},
            }
        }
        proof {
            if old(self).rx_fifo@.len() == 0 {
                assert(old(self).rx_fifo@.skip(0) =~= old(self).rx_fifo@);
            }
        }
        self.last_rx
    }

    /// A halfword read sees the next two FIFO bytes but pops only one.
    pub fn read_data16(&mut self) -> (r: u16)
        requires
            old(self).wf(),
        ensures
            final(self).wf(),
            joy_data_read16(*old(self), *final(self), r),
    {
        let lo: u8 = if self.rx_fifo.len() > 0 { self.rx_fifo[0] } else { self.last_rx };
        let hi: u8 = if self.rx_fifo.len() > 1 { self.rx_fifo[1] } else { lo };
        self.read_data8();
        lo as u16 | ((hi as u16) << 8u16)
    }

    /// A word read pops four bytes, repeating the last one when the FIFO runs out.
    pub fn read_data32(&mut self) -> (r: u32)
        requires
            old(self).wf(),
        ensures
            final(self).wf(),
            joy_data_read32(*old(self), *final(self), r),
    {
        let ghost f = self.rx_fifo@;
        let ghost last = self.last_rx;
        let b0 = self.read_data8();
        assert(self.rx_fifo@ == f.skip(if f.len() > 0 { 1int } else { 0int }));
        let b1 = self.read_data8();
        assert(self.rx_fifo@ =~= f.skip(if f.len() < 2 { f.len() as int } else { 2int }));
        let b2 = self.read_data8();
        assert(self.rx_fifo@ =~= f.skip(if f.len() < 3 { f.len() as int } else { 3int }));
        let b3 = self.read_data8();
        assert(self.rx_fifo@ =~= f.skip(if f.len() < 4 { f.len() as int } else { 4int }));
        (b0 as u32) | ((b1 as u32) << 8u32) | ((b2 as u32) << 16u32) | ((b3 as u32) << 24u32)
    }

    /// Advances the acknowledge pulse, the acknowledge delay (whose end
    /// starts a pulse and may raise the DSR interrupt) and the byte in
    /// flight.  Returns whether the interrupt flag rose.
    pub fn tick(&mut self, cycles: u32) -> (r: bool)
        requires
            old(self).wf(),
        ensures
            final(self).wf(),
            joy_ticked(*old(self), cycles, *final(self), r),
    {
        let mut irq_edge = false;
        if self.ack_pulse_cycles != 0 {
            self.ack_pulse_cycles = if self.ack_pulse_cycles > cycles { self.ack_pulse_cycles - cycles } else { 0 };
        }
        if self.ack_delay_cycles != 0 {
            self.ack_delay_cycles = if self.ack_delay_cycles > cycles { self.ack_delay_cycles - cycles } else { 0 };
            if self.ack_delay_cycles == 0 {
                self.ack_pulse_cycles = ACK_PULSE_CYCLES;
                if (self.control & CTRL_DSR_IRQ_ENABLE) != 0 {
                    let edge = self.raise_irq();
                    irq_edge = irq_edge || edge;
                }
            }
        }
        if self.pending_tx.is_some() && (self.control & CTRL_TX_ENABLE) != 0 {
            let previous = self.transfer_cycles;
            self.transfer_cycles = if self.transfer_cycles > cycles { self.transfer_cycles - cycles } else { 0 };
            if previous != 0 && self.transfer_cycles == 0 {
                let edge = self.finish_transfer();
                irq_edge = irq_edge || edge;
            }
        }
        irq_edge
    }

    /// Connects or removes the pad on a port (0 or 1), ending any transaction.
    pub fn set_controller(&mut self, port: usize, controller: Option<Controller>)
        requires
            old(self).wf(),
        ensures
            final(self).wf(),
            port < 2 ==> final(self).controllers[port as int] == reset_controller_spec(controller),
            port < 2 ==> final(self).selected == SelectedDevice::Idle,
            port >= 2 ==> *final(self) == *old(self),
    {
        if port < 2 {
            self.controllers[port] = controller;
            self.reset_transaction();
        }
    }

    pub fn controller(&self, port: usize) -> (r: Option<&Controller>)
        ensures
            port < 2 ==> r == match self.controllers[port as int] {
                Some(c) => Some(&c),
                None => None::<&Controller>,
            },
            port >= 2 ==> r is None,
    {
        if port < 2 {
            self.controllers[port].as_ref()
        } else {
            None
        }
    }

    pub fn controller_mut(&mut self, port: usize) -> (r: Option<&mut Controller>)
        ensures
            port >= 2 ==> r is None && *final(self) == *old(self),
            port < 2 ==> (old(self).controllers[port as int] is None <==> r is None),
            port < 2 && r is Some ==> *r.unwrap() == old(self).controllers[port as int].unwrap() && final(self).controllers[port as int]
                == Some(*final(r.unwrap())),
    {
        if port < 2 {
            self.controllers[port].as_mut()
        } else {
            None
        }
    }

    /// Inserts a card into a port (0 or 1), ending any transaction.
    pub fn insert_memory_card(&mut self, port: usize, card: MemoryCard)
        requires
            old(self).wf(),
            card.wf(),
        ensures
            final(self).wf(),
            port < 2 ==> final(self).memory_cards[port as int] is Some,
            port >= 2 ==> *final(self) == *old(self),
    {
        if port < 2 {
            self.memory_cards[port] = Some(card);
            self.reset_transaction();
        }
    }

    pub fn remove_memory_card(&mut self, port: usize) -> (r: Option<MemoryCard>)
        requires
            old(self).wf(),
        ensures
            final(self).wf(),
            port < 2 ==> final(self).memory_cards[port as int] is None,
            port < 2 ==> (r is Some <==> old(self).memory_cards[port as int] is Some),
            port >= 2 ==> r is None && *final(self) == *old(self),
    {
        if port >= 2 {
            return None;
        }
        let card = self.memory_cards[port].take();
        self.reset_transaction();
        card
    }

    pub fn memory_card(&self, port: usize) -> (r: Option<&MemoryCard>)
        ensures
            port < 2 ==> r == match self.memory_cards[port as int] {
                Some(c) => Some(&c),
                None => None::<&MemoryCard>,
            },
            port >= 2 ==> r is None,
    {
        if port < 2 {
            self.memory_cards[port].as_ref()
        } else {
            None
        }
    }

    pub fn memory_card_mut(&mut self, port: usize) -> (r: Option<&mut MemoryCard>)
        ensures
            port >= 2 ==> r is None && *final(self) == *old(self),
            port < 2 ==> (old(self).memory_cards[port as int] is None <==> r is None),
            port < 2 && r is Some ==> *r.unwrap() == old(self).memory_cards[port as int].unwrap()
                && final(self).memory_cards[port as int] == Some(*final(r.unwrap())),
    {
        if port < 2 {
            self.memory_cards[port].as_mut()
        } else {
            None
        }
    }

    pub fn byte_cycles(&self) -> (r: u32)
        ensures
            r == byte_cycles_spec(self.mode, self.baud),
    {
        let factor: u32 = if (self.mode & 3) == 2 {
            16
        } else if (self.mode & 3) == 3 {
            64
        } else {
            1
        };
        let p0 = (self.baud as u32 * factor) & !1u32;
        let period: u64 = if p0 < 1 { 1 } else { p0 as u64 };
        if period * 8 > u32::MAX as u64 {
            u32::MAX
        } else {
            (period * 8) as u32
        }
    }

    /// The end of a byte: it is exchanged with the selected device while
    /// DTR is set, the reply is received (into a FIFO of at most eight bytes)
    /// when receiving, an acknowledge starts the delay, and the TX or RX
    /// interrupt may be raised.
    fn finish_transfer(&mut self) -> (r: bool)
        requires
            old(self).wf(),
        ensures
            final(self).wf(),
            transfer_finished(*old(self), *final(self), r),
    {
        let value = match self.pending_tx.take() {
            Some(v) => v,
            None => 0,
        };
        let receive_enabled = (self.control & (CTRL_DTR | CTRL_FORCE_RX)) != 0;
        let response = if (self.control & CTRL_DTR) != 0 {
            self.exchange(value)
        } else {
            TransferResponse::last(0xff)
        };
        if receive_enabled {
            if self.rx_fifo.len() == 8 {
                self.rx_fifo.pop_back();
            }
            self.rx_fifo.push_back(response.value);
        }
        if (self.control & CTRL_FORCE_RX) != 0 {
            self.control = self.control & !CTRL_FORCE_RX;
        }
        if response.acknowledge {
            self.ack_delay_cycles = ACK_DELAY_CYCLES.saturating_add(response.extra_ack_delay);
        }
        let threshold: usize = if ((self.control >> 8u16) & 3) == 0 {
            1
        } else if ((self.control >> 8u16) & 3) == 1 {
            2
        } else if ((self.control >> 8u16) & 3) == 2 {
            4
        } else {
            8
        };
        let interrupt = (self.control & CTRL_TX_IRQ_ENABLE) != 0 || ((self.control & CTRL_RX_IRQ_ENABLE) != 0
            && self.rx_fifo.len() >= threshold);
        if interrupt {
            self.raise_irq()
        } else {
            false
        }
    }

    /// Routes a byte: 0x01 selects the pad and 0x81 the card on the
    /// selected port; later bytes go to the selected device.
    fn exchange(&mut self, value: u8) -> (r: TransferResponse)
        requires
            old(self).wf(),
        ensures
            final(self).wf(),
            r == device_reply(*old(self), value),
            final(self).irq == old(self).irq && final(self).rx_fifo == old(self).rx_fifo,
            final(self).control == old(self).control && final(self).pending_tx == old(self).pending_tx,
            final(self).mode == old(self).mode && final(self).baud == old(self).baud && final(self).last_rx == old(self).last_rx,
            final(self).transfer_cycles == old(self).transfer_cycles,
            final(self).ack_delay_cycles == old(self).ack_delay_cycles && final(self).ack_pulse_cycles
                == old(self).ack_pulse_cycles,
            ({
                let port = selected_port(*old(self));
                &&& old(self).selected is Idle && value == 0x01 && old(self).controllers[port] is Some ==> final(self).selected
                    is Controller && final(self).controllers[port] == reset_controller_spec(old(self).controllers[port])
                &&& old(self).selected is Idle && !(value == 0x01 && old(self).controllers[port] is Some) && value == 0x81
                    && old(self).memory_cards[port] is Some ==> final(self).selected is MemoryCard
                &&& old(self).selected is Controller ==> (old(self).controllers[port] matches Some(c)
                    ==> final(self).controllers[port] == Some(controller_exchange_spec(c, value).0))
            }),
    {
        let port: usize = if (self.control & CTRL_PORT_SELECT) != 0 { 1 } else { 0 };
        match self.selected {
            SelectedDevice::Idle => {
                if value == 0x01 && self.controllers[port].is_some() {
                    let mut c = self.controllers[port].unwrap();
                    c.reset_transaction();
                    self.controllers[port] = Some(c);
                    self.selected = SelectedDevice::Controller;
                    TransferResponse::more(0xff)
                } else if value == 0x81 && self.memory_cards[port].is_some() {
                    let mut card = self.memory_cards[port].take().unwrap();
                    card.reset_transaction();
                    self.memory_cards[port] = Some(card);
                    self.selected = SelectedDevice::MemoryCard;
                    TransferResponse::more(0xff)
                } else {
                    TransferResponse::last(0xff)
                }
            },
            SelectedDevice::Controller => {
                match self.controllers[port] {
                    Some(c) => {
                        let mut c = c;
                        let response = c.exchange(value);
                        self.controllers[port] = Some(c);
                        response
                    },
                    None => TransferResponse::last(0xff),
                }
            },
            SelectedDevice::MemoryCard => {
                match self.memory_cards[port].take() {
                    Some(card) => {
                        let mut card = card;
                        let response = card.exchange(value);
                        self.memory_cards[port] = Some(card);
                        response
                    },
                    None => TransferResponse::last(0xff),
                }
            },
        }
    }

    fn raise_irq(&mut self) -> (r: bool)
        ensures
            r == !old(self).irq,
            *final(self) == (JoySerial { irq: true, ..*old(self) }),
    {
        let edge = !self.irq;
        self.irq = true;
        edge
    }

    /// Deselects the device and restarts both pads' and both cards' protocols.
    fn reset_transaction(&mut self)
        requires
            old(self).wf(),
        ensures
            final(self).wf(),
            final(self).selected == SelectedDevice::Idle,
            final(self).irq == old(self).irq && final(self).rx_fifo == old(self).rx_fifo,
            final(self).control == old(self).control && final(self).pending_tx == old(self).pending_tx,
            final(self).mode == old(self).mode && final(self).baud == old(self).baud,
            final(self).ack_delay_cycles == old(self).ack_delay_cycles,
            final(self).ack_pulse_cycles == old(self).ack_pulse_cycles,
            forall|i: int| 0 <= i < 2 ==> final(self).controllers[i] == reset_controller_spec(old(self).controllers[i]),
            forall|i: int| 0 <= i < 2 ==> (final(self).memory_cards[i] is Some <==> old(self).memory_cards[i] is Some),
    {
        self.selected = SelectedDevice::Idle;
        let mut port: usize = 0;
        while port < 2
            invariant
                self.wf(),
                port <= 2,
                self.selected == SelectedDevice::Idle,
                self.irq == old(self).irq && self.rx_fifo == old(self).rx_fifo,
                self.control == old(self).control && self.pending_tx == old(self).pending_tx,
                self.mode == old(self).mode && self.baud == old(self).baud,
                self.ack_delay_cycles == old(self).ack_delay_cycles,
                self.ack_pulse_cycles == old(self).ack_pulse_cycles,
                forall|i: int| 0 <= i < port ==> self.controllers[i] == reset_controller_spec(old(self).controllers[i]),
                forall|i: int| port <= i < 2 ==> self.controllers[i] == old(self).controllers[i],
                forall|i: int| 0 <= i < 2 ==> (self.memory_cards[i] is Some <==> old(self).memory_cards[i] is Some),
            decreases 2 - port,
        {
            match self.controllers[port] {
                Some(c) => {
                    let mut c = c;
                    c.reset_transaction();
                    self.controllers[port] = Some(c);
                },
                None => {},
            }
            match self.memory_cards[port].take() {
                Some(card) => {
                    let mut card = card;
                    card.reset_transaction();
                    self.memory_cards[port] = Some(card);
                },
                None => {},
            }
            port += 1;
        }
    }
}

impl Default for JoySerial {
    fn default() -> (r: Self)
        ensures
            r.wf(),
    {
        Self::new()
    }
}

} // verus!
