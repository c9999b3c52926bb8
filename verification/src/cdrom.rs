//! The CD-ROM controller: indexed registers, command/parameter/response
//! FIFOs, interrupt flags, and sector delivery from a mounted image.
use std::collections::VecDeque;
use vstd::prelude::*;

verus! {

broadcast use crate::bits::group_bits;

pub const INT_DATA_READY: u8 = 0x01u8;
pub const INT_COMPLETE: u8 = 0x02u8;
pub const INT_ACK: u8 = 0x03u8;
pub const INT_ERROR: u8 = 0x05u8;
pub const DRIVE_STATUS_ERROR: u8 = 0x01u8;
pub const DRIVE_STATUS_MOTOR_ON: u8 = 0x02u8;
pub const DRIVE_STATUS_READ: u8 = 0x20u8;
pub const SECTOR_PREGAP: u32 = 150u32;
pub const COOKED_SECTOR_SIZE: usize = 2048usize;
pub const RAW_SECTOR_SIZE: usize = 2352usize;
pub const RAW_MODE2_PAYLOAD_OFFSET: usize = 24usize;
pub const SECTOR_PAYLOAD_SIZE: usize = 2048usize;

#[derive(Debug, Clone, Copy, PartialEq, Eq, Structural)]
pub enum CdromSectorSize {
    Cooked2048,
    Raw2352,
}

pub open spec fn sector_bytes_spec(s: CdromSectorSize) -> usize {
    match s {
        CdromSectorSize::Cooked2048 => COOKED_SECTOR_SIZE,
        CdromSectorSize::Raw2352 => RAW_SECTOR_SIZE,
    }
}

/// Where the 2048 user-data bytes start within a stored sector.
pub open spec fn payload_offset_spec(s: CdromSectorSize) -> usize {
    match s {
        CdromSectorSize::Cooked2048 => 0usize,
        CdromSectorSize::Raw2352 => RAW_MODE2_PAYLOAD_OFFSET,
    }
}

impl CdromSectorSize {
    pub fn bytes(self) -> (r: usize)
        ensures
            r == sector_bytes_spec(self),
    {
        match self {
            CdromSectorSize::Cooked2048 => COOKED_SECTOR_SIZE,
            CdromSectorSize::Raw2352 => RAW_SECTOR_SIZE,
        }
    }
}

#[derive(Debug, Clone, Copy, PartialEq, Eq, Structural)]
pub enum CdromDiscError {
    Empty,
    MisalignedLength,
}

#[derive(Debug, Clone)]
pub struct CdromDisc {
    pub bytes: Vec<u8>,
    pub sector_size: CdromSectorSize,
}

impl CdromDisc {
    /// An image is a non-empty whole number of sectors.
    pub open spec fn wf(&self) -> bool {
        self.bytes@.len() > 0 && self.bytes@.len() % (sector_bytes_spec(self.sector_size) as nat) == 0
    }

    /// The first byte of the user data of sector `lba`, when the sector lies
    /// wholly inside the image.
    pub open spec fn payload_start(&self, lba: u32) -> Option<int> {
        let start = lba * sector_bytes_spec(self.sector_size) + payload_offset_spec(self.sector_size);
        if start + SECTOR_PAYLOAD_SIZE <= self.bytes@.len() {
            Some(start)
        } else {
            None
        }
    }

    /// Accepts an image that is non-empty and a whole number of sectors.
    pub fn new(bytes: Vec<u8>, sector_size: CdromSectorSize) -> (r: Result<Self, CdromDiscError>)
        ensures
            bytes@.len() == 0 ==> r == Err::<Self, CdromDiscError>(CdromDiscError::Empty),
            bytes@.len() > 0 && bytes@.len() % (sector_bytes_spec(sector_size) as nat) != 0 ==> r == Err::<
                Self,
                CdromDiscError,
            >(CdromDiscError::MisalignedLength),
            bytes@.len() > 0 && bytes@.len() % (sector_bytes_spec(sector_size) as nat) == 0 ==> (r matches Ok(d) && d.bytes@
                == bytes@ && d.sector_size == sector_size && d.wf()),
    {
        let sector_bytes = sector_size.bytes();
        if bytes.len() == 0 {
            return Err(CdromDiscError::Empty);
        }
        if bytes.len() % sector_bytes != 0 {
            return Err(CdromDiscError::MisalignedLength);
        }
        Ok(Self { bytes, sector_size })
    }

    pub fn sector_count(&self) -> (r: usize)
        ensures
            r == self.bytes@.len() / (sector_bytes_spec(self.sector_size) as nat),
    {
        self.bytes.len() / self.sector_size.bytes()
    }

    fn sector_payload_start(&self, lba: u32) -> (r: Option<usize>)
        ensures
            match r {
                Some(s) => self.payload_start(lba) == Some(s as int),
                None => self.payload_start(lba) is None,
            },
    {
        proof {
            crate::bits::lemma_mul_bounds(lba as int, sector_bytes_spec(self.sector_size) as int, 0x1_0000_0000, 2352);
        }
        let start: u64 = (lba as u64) * (self.sector_size.bytes() as u64) + (match self.sector_size {
            CdromSectorSize::Cooked2048 => 0u64,
            CdromSectorSize::Raw2352 => 24u64,
        });
        if start + 2048 <= self.bytes.len() as u64 {
            Some(start as usize)
        } else {
            None
        }
    }
}

#[derive(Debug, Clone)]
pub struct QueuedInterrupt {
    pub code: u8,
    pub response: Vec<u8>,
}

#[derive(Debug, Clone)]
pub struct Cdrom {
    pub index: u8,
    pub mode: u8,
    pub interrupt_enable: u8,
    pub interrupt_flags: u8,
    pub params: VecDeque<u8>,
    pub responses: VecDeque<u8>,
    pub data: VecDeque<u8>,
    pub queued_interrupts: VecDeque<QueuedInterrupt>,
    pub disc: Option<CdromDisc>,
    pub loc_lba: u32,
    pub read_active: bool,
    pub last_sector_lba: Option<u32>,
}

pub open spec fn bcd_to_u8_spec(value: u8) -> u8 {
    (((value >> 4u8) & 0x0f) * 10 + (value & 0x0f)) as u8
}

pub open spec fn u8_to_bcd_spec(value: u8) -> u8 {
    (((value / 10) as u8) << 4u8) | ((value % 10) as u8)
}

/// A position written as BCD and read back: converting a value below 100
/// to BCD and back gives the value again.
pub proof fn lemma_bcd_round_trip(v: u8)
    requires
        v < 100,
    ensures
        bcd_to_u8_spec(u8_to_bcd_spec(v)) == v,
{
    assert(v < 100 ==> ((((((v / 10) as u8) << 4u8) | ((v % 10) as u8)) >> 4u8) & 0x0f) * 10 + (((((v / 10) as u8)
        << 4u8) | ((v % 10) as u8)) & 0x0f) == v) by (bit_vector);
}

/// The answer to a refused command: an error interrupt with the status
/// (motor on, error) and error code 0x80; reading stops.
pub open spec fn error_answer() -> Seq<(u8, Seq<u8>)> {
    seq![(INT_ERROR, seq![DRIVE_STATUS_MOTOR_ON | DRIVE_STATUS_ERROR, 0x80u8])]
}

/// The position `GetlocL` and `GetlocP` report: the last sector read, else
/// the seek target.
pub open spec fn reported_lba(c: Cdrom) -> u32 {
    match c.last_sector_lba {
        Some(l) => l,
        None => c.loc_lba,
    }
}

/// What reading the sector at the read position answers: data ready with
/// the status, or the error answer past the end of the image.
pub open spec fn sector_answer(c: Cdrom, status: u8) -> Seq<(u8, Seq<u8>)> {
    match c.disc {
        Some(d) => if d.payload_start(c.loc_lba) is Some {
            seq![(INT_DATA_READY, seq![status])]
        } else {
            error_answer()
        },
        None => error_answer(),
    }
}

/// The interrupts, with their response bytes, that command `command` with
/// parameters `p` queues, given the drive `c` it was sent to.
#[verifier::opaque]
pub open spec fn command_answer(c: Cdrom, command: u8, p: Seq<u8>) -> Seq<(u8, Seq<u8>)> {
    let s = c.spec_drive_status();
    let idle = DRIVE_STATUS_MOTOR_ON;
    let reading = DRIVE_STATUS_MOTOR_ON | DRIVE_STATUS_READ;
    if command == 0x01 || command == 0x0b || command == 0x0c || command == 0x0d {
        seq![(INT_ACK, seq![s])]
    } else if command == 0x02 {
        if p.len() < 3 { error_answer() } else { seq![(INT_ACK, seq![s])] }
    } else if command == 0x06 || command == 0x1b {
        if c.disc is None {
            error_answer()
        } else {
            seq![(INT_ACK, seq![reading])] + sector_answer(c, reading)
        }
    } else if command == 0x09 {
        seq![(INT_ACK, seq![idle]), (INT_COMPLETE, seq![idle])]
    } else if command == 0x0a {
        seq![(INT_ACK, seq![idle])]
    } else if command == 0x0e {
        if p.len() == 0 { error_answer() } else { seq![(INT_ACK, seq![s])] }
    } else if command == 0x0f {
        seq![(INT_ACK, seq![s, c.mode, 0u8, 0u8, 0u8])]
    } else if command == 0x10 {
        let (m, sec, f) = lba_bcd_msf(reported_lba(c));
        seq![(INT_ACK, seq![m, sec, f, 0x02u8, 0u8, 0u8, 0x20u8, 0u8])]
    } else if command == 0x19 {
        seq![(INT_ACK, seq![s, 0u8, 0u8, 0u8, 0u8])]
    } else if command == 0x07 || command == 0x1e {
        seq![(INT_ACK, seq![s]), (INT_COMPLETE, seq![s])]
    } else if command == 0x08 || command == 0x15 || command == 0x16 {
        seq![(INT_ACK, seq![idle]), (INT_COMPLETE, seq![idle])]
    } else if command == 0x11 {
        let (rm, rs, rf) = frames_bcd_msf(reported_lba(c) as int);
        let (am, as_, af) = lba_bcd_msf(reported_lba(c));
        seq![(INT_ACK, seq![0x01u8, 0x01u8, rm, rs, rf, am, as_, af])]
    } else if command == 0x13 {
        if c.disc is None { error_answer() } else { seq![(INT_ACK, seq![s, 0x01u8, 0x01u8])] }
    } else if command == 0x14 {
        if p.len() == 0 || c.disc is None {
            error_answer()
        } else if bcd_to_u8_spec(p[0]) == 1 {
            seq![(INT_ACK, seq![s, 0x00u8, 0x02u8])]
        } else if bcd_to_u8_spec(p[0]) == 0 {
            let count = c.disc->0.bytes@.len() / (sector_bytes_spec(c.disc->0.sector_size) as nat);
            let (m, sec, _f) = lba_bcd_msf(if count > 0xffff_ffff { 0xffff_ffffu32 } else { count as u32 });
            seq![(INT_ACK, seq![s, m, sec])]
        } else {
            error_answer()
        }
    } else if command == 0x1a {
        if c.disc is Some {
            seq![
                (INT_ACK, seq![s]),
                (INT_COMPLETE, seq![0x02u8, 0x00u8, 0x20u8, 0x00u8, 0x53u8, 0x43u8, 0x45u8, 0x41u8]),
            ]
        } else {
            seq![(INT_ACK, seq![s]), (INT_ERROR, seq![0x08u8, 0x40u8, 0u8, 0u8, 0u8, 0u8, 0u8, 0u8])]
        }
    } else {
        error_answer()
    }
}

/// Raising interrupt `code` (1 to 7) leaves it in the low three flag bits.
proof fn lemma_interrupt_code(flags: u8, code: u8)
    by (bit_vector)
    requires
        1 <= code <= 7,
    ensures
        code & 7 == code,
        ((flags & !7u8) | (code & 7)) & 7 == code,
        ((flags & !7u8) | (code & 7)) & !7u8 == flags & !7u8,
{
}

/// From `o` to `n` the interrupts still to be seen grow by `answer`, and the
/// flag bits above the interrupt code stay.
pub open spec fn answered(o: Cdrom, n: Cdrom, answer: Seq<(u8, Seq<u8>)>) -> bool {
    &&& n.pending_interrupts() == o.pending_interrupts() + answer
    &&& n.interrupt_flags & !7u8 == o.interrupt_flags & !7u8
}

/// A drive `n` after `o` answered `answer`: the index, the interrupt
/// enable mask, the disc and the parameters stay, and the mode, seek
/// target, reading state, sector data and last sector read are the given ones.
pub open spec fn drive_after(
    o: Cdrom,
    n: Cdrom,
    answer: Seq<(u8, Seq<u8>)>,
    mode: u8,
    loc: u32,
    read: bool,
    data: Seq<u8>,
    last: Option<u32>,
) -> bool {
    &&& answered(o, n, answer)
    &&& n.index == o.index
    &&& n.interrupt_enable == o.interrupt_enable
    &&& n.disc == o.disc
    &&& n.params@ == o.params@
    &&& n.mode == mode
    &&& n.loc_lba == loc
    &&& n.read_active == read
    &&& n.data@ == data
    &&& n.last_sector_lba == last
}

/// Two answers in turn answer their concatenation.
proof fn lemma_answered_chain(a: Cdrom, b: Cdrom, c: Cdrom, x: Seq<(u8, Seq<u8>)>, y: Seq<(u8, Seq<u8>)>)
    requires
        answered(a, b, x),
        answered(b, c, y),
    ensures
        answered(a, c, x + y),
{
    assert(a.pending_interrupts() + x + y =~= a.pending_interrupts() + (x + y));
}

/// The read position after the sector at `lba`.
pub open spec fn next_lba(lba: u32) -> u32 {
    if lba < u32::MAX { (lba + 1) as u32 } else { u32::MAX }
}

/// The sector at the read position is loaded and data-ready raised with the
/// drive status, or, past the end of the image, the error answer is given
/// and reading stops.
pub open spec fn sector_read(o: Cdrom, n: Cdrom) -> bool {
    match o.disc {
        Some(d) => match d.payload_start(o.loc_lba) {
            Some(st) => drive_after(
                o,
                n,
                sector_answer(o, o.spec_drive_status()),
                o.mode,
                next_lba(o.loc_lba),
                o.read_active,
                d.bytes@.subrange(st, st + SECTOR_PAYLOAD_SIZE),
                Some(o.loc_lba),
            ),
            None => drive_after(o, n, error_answer(), o.mode, o.loc_lba, false, o.data@, o.last_sector_lba),
        },
        None => drive_after(o, n, error_answer(), o.mode, o.loc_lba, false, o.data@, o.last_sector_lba),
    }
}

/// The seek target that `Setloc` with BCD minute, second and frame `p` sets.
pub open spec fn setloc_lba(p: Seq<u8>) -> u32 {
    let absolute = ((bcd_to_u8_spec(p[0]) * 60) + bcd_to_u8_spec(p[1])) * 75 + bcd_to_u8_spec(p[2]);
    if absolute >= 150 { (absolute - 150) as u32 } else { 0u32 }
}

/// The mode, seek target, reading state, sector data and last sector read
/// after command `command` with parameters `p` is sent to `c`.  A refused
/// command stops reading and changes nothing else.
pub open spec fn command_state(c: Cdrom, command: u8, p: Seq<u8>) -> (u8, u32, bool, Seq<u8>, Option<u32>) {
    let keep = (c.mode, c.loc_lba, c.read_active, c.data@, c.last_sector_lba);
    let refused = (c.mode, c.loc_lba, false, c.data@, c.last_sector_lba);
    if command == 0x02 {
        if p.len() < 3 { refused } else { (c.mode, setloc_lba(p), c.read_active, c.data@, c.last_sector_lba) }
    } else if command == 0x06 || command == 0x1b {
        match c.disc {
            Some(d) => match d.payload_start(c.loc_lba) {
                Some(st) => (
                    c.mode,
                    next_lba(c.loc_lba),
                    true,
                    d.bytes@.subrange(st, st + SECTOR_PAYLOAD_SIZE),
                    Some(c.loc_lba),
                ),
                None => refused,
            },
            None => refused,
        }
    } else if command == 0x09 || command == 0x08 || command == 0x15 || command == 0x16 {
        (c.mode, c.loc_lba, false, c.data@, c.last_sector_lba)
    } else if command == 0x0a {
        (0u8, c.loc_lba, false, Seq::empty(), c.last_sector_lba)
    } else if command == 0x0e {
        if p.len() == 0 { refused } else { (p[0], c.loc_lba, c.read_active, c.data@, c.last_sector_lba) }
    } else if command == 0x13 {
        if c.disc is None { refused } else { keep }
    } else if command == 0x14 {
        if p.len() == 0 || c.disc is None || (bcd_to_u8_spec(p[0]) != 1 && bcd_to_u8_spec(p[0]) != 0) {
            refused
        } else {
            keep
        }
    } else if command == 0x01 || command == 0x0b || command == 0x0c || command == 0x0d || command == 0x0f || command
        == 0x10 || command == 0x19 || command == 0x07 || command == 0x1e || command == 0x11 || command == 0x1a {
        keep
    } else {
        refused
    }
}

/// Command `command` with parameters `p` run on `o`, giving `n`: the
/// answer is queued, the parameter FIFO is emptied, and the drive state is
/// that of `command_state`.
pub open spec fn command_done(o: Cdrom, command: u8, p: Seq<u8>, n: Cdrom) -> bool {
    let (mode, loc, read, data, last) = command_state(o, command, p);
    &&& answered(o, n, command_answer(o, command, p))
    &&& n.index == o.index
    &&& n.interrupt_enable == o.interrupt_enable
    &&& n.disc == o.disc
    &&& n.params@.len() == 0
    &&& n.mode == mode
    &&& n.loc_lba == loc
    &&& n.read_active == read
    &&& n.data@ == data
    &&& n.last_sector_lba == last
}

/// The flags in `mask` acknowledged on `o`, giving `n`: once the raised
/// interrupt is cleared, the next queued one is raised with its response,
/// or, while reading with the sector data taken, the next sector is read.
pub open spec fn acknowledged(o: Cdrom, mask: u8, n: Cdrom) -> bool {
    let f = o.interrupt_flags & !mask;
    &&& f & 7 != 0 ==> n == (Cdrom { interrupt_flags: f, ..o })
    &&& f & 7 == 0 && o.queued_interrupts@.len() > 0 ==> {
        &&& n.pending_interrupts() == o.pending_interrupts().drop_first()
        &&& n.interrupt_flags & !7u8 == f & !7u8
        &&& n == (Cdrom {
            interrupt_flags: n.interrupt_flags,
            responses: n.responses,
            queued_interrupts: n.queued_interrupts,
            ..o
        })
    }
    &&& f & 7 == 0 && o.queued_interrupts@.len() == 0 && !(o.read_active && o.data@.len() == 0) ==> n == (Cdrom {
        interrupt_flags: f,
        ..o
    })
    &&& f & 7 == 0 && o.queued_interrupts@.len() == 0 && o.read_active && o.data@.len() == 0 ==> sector_read(
        Cdrom { interrupt_flags: f, ..o },
        n,
    )
}

/// A register read at `offset`, from `o` to `n`, returning `r`: status,
/// response FIFO, data FIFO, or interrupt enable or flags.
pub open spec fn cdrom_read8(o: Cdrom, offset: u32, n: Cdrom, r: u8) -> bool {
    &&& (offset & 3 == 0 ==> r == o.spec_status_register() && n == o)
    &&& (offset & 3 == 1 ==> {
        &&& r == if o.responses@.len() > 0 { o.responses@[0] } else { 0u8 }
        &&& n.responses@ == if o.responses@.len() > 0 {
            o.responses@.drop_first()
        } else {
            o.responses@
        }
        &&& n.interrupt_flags == o.interrupt_flags
        &&& n == (Cdrom { responses: n.responses, ..o })
    })
    &&& (offset & 3 == 2 ==> r == if o.data@.len() > 0 { o.data@[0] } else { 0u8 })
    &&& (offset & 3 == 2 && o.data@.len() > 1 ==> n.data@ == o.data@.drop_first())
    &&& (offset & 3 == 2 ==> data_byte_popped(o, n, r))
    &&& (offset & 3 == 3 ==> n == o && r == if o.index & 3 == 0 || o.index & 3
        == 2 {
        o.interrupt_enable
    } else {
        o.interrupt_flags
    })
}

/// A register write of `value` at `offset`, from `o` to `n`: index,
/// command, parameter, interrupt enable or acknowledge.
pub open spec fn cdrom_write8(o: Cdrom, offset: u32, value: u8, n: Cdrom) -> bool {
    &&& (offset & 3 == 0 ==> n == (Cdrom { index: value & 3, ..o }))
    &&& (offset & 3 == 1 && o.index != 0 ==> n == o)
    &&& (offset & 3 == 1 && o.index == 0 ==> n.params@.len() == 0 && n.pending_interrupts()
        == o.pending_interrupts() + command_answer(o, value, o.params@))
    &&& (offset & 3 == 1 && o.index == 0 ==> command_done(o, value, o.params@, n))
    &&& (offset & 3 == 2 && o.index & 3 == 0 ==> n.params@ == o.params@.push(value)
        && n.responses == o.responses && n.interrupt_flags
        == o.interrupt_flags)
    &&& (offset & 3 == 2 && o.index & 3 == 0 ==> n == (Cdrom { params: n.params, ..o }))
    &&& (offset & 3 == 2 && o.index & 3 == 1 ==> n == (Cdrom {
        interrupt_enable: value & 0x1f,
        ..o
    }))
    &&& (offset & 3 == 2 && o.index & 3 >= 2 ==> n == o)
    &&& (offset & 3 == 3 && (o.index & 3 == 0 || o.index & 3 == 2) ==> n == o)
    &&& (offset & 3 == 3 && (o.index & 3 == 1 || o.index & 3 == 3) ==> (n.interrupt_flags
        & 7 == 0 ==> o.interrupt_flags & !(value & 0x1f) & 7 == 0))
    &&& (offset & 3 == 3 && (o.index & 3 == 1 || o.index & 3 == 3) ==> acknowledged(o, value & 0x1f, n))
}

/// A byte `r` taken from the sector data, after which the next sector is
/// delivered if the data ran out.
pub open spec fn data_byte_popped(o: Cdrom, n: Cdrom, r: u8) -> bool {
    &&& r == if o.data@.len() > 0 { o.data@[0] } else { 0u8 }
    &&& exists|mid: Cdrom|
        {
            &&& mid == (Cdrom { data: mid.data, ..o })
            &&& mid.data@ == if o.data@.len() > 0 { o.data@.drop_first() } else { o.data@ }
            &&& #[trigger] next_sector_queued(mid, n)
        }
}

/// A DMA word `r` taken from the sector data.
pub open spec fn cdrom_dma_read(o: Cdrom, n: Cdrom, r: u32) -> bool {
    &&& (o.data@.len() > 4 ==> {
        let d = o.data@;
        &&& r == d[0] as u32 | ((d[1] as u32) << 8u32) | ((d[2] as u32) << 16u32) | ((d[3] as u32) << 24u32)
        &&& n == (Cdrom { data: n.data, ..o })
        &&& n.data@ == d.subrange(4, d.len() as int)
    })
    &&& exists|c1: Cdrom, c2: Cdrom, c3: Cdrom, b0: u8, b1: u8, b2: u8, b3: u8|
        {
            &&& #[trigger] data_byte_popped(o, c1, b0)
            &&& #[trigger] data_byte_popped(c1, c2, b1)
            &&& #[trigger] data_byte_popped(c2, c3, b2)
            &&& #[trigger] data_byte_popped(c3, n, b3)
            &&& r == (b0 as u32) | ((b1 as u32) << 8u32) | ((b2 as u32) << 16u32) | ((b3 as u32) << 24u32)
        }
}

/// While a read is active and the CPU has taken the last sector and
/// acknowledged every interrupt, the next sector is delivered; otherwise
/// nothing changes.
pub open spec fn next_sector_queued(o: Cdrom, n: Cdrom) -> bool {
    &&& (o.data@.len() > 0 || !o.read_active ==> n == o)
    &&& (n.params == o.params)
    &&& (n.mode == o.mode)
    &&& (({
        let go = o.read_active && o.data@.len() == 0 && o.interrupt_flags & 7 == 0
            && o.queued_interrupts@.len() == 0;
        &&& !go ==> n == o
        &&& go ==> sector_read(o, n)
    }))
}

impl Cdrom {
    /// The "interrupt raised" condition: a flag is set whose enable bit is set.
    pub open spec fn spec_interrupt_pending(&self) -> bool {
        self.interrupt_flags & self.interrupt_enable & 0x1f != 0
    }

    pub open spec fn spec_drive_status(&self) -> u8 {
        if self.read_active {
            DRIVE_STATUS_MOTOR_ON | DRIVE_STATUS_READ
        } else {
            DRIVE_STATUS_MOTOR_ON
        }
    }

    /// The status register: the index, parameter-FIFO empty (bit 3), the
    /// parameter-FIFO-not-full bit 4, response-FIFO not empty (bit 5) and
    /// data-FIFO not empty (bit 6).
    pub open spec fn spec_status_register(&self) -> u8 {
        let s0 = self.index & 3;
        let s1 = if self.params@.len() == 0 { s0 | 0x08 } else { s0 };
        let s2 = s1 | 0x10;
        let s3 = if self.responses@.len() > 0 { s2 | 0x20 } else { s2 };
        if self.data@.len() > 0 { s3 | 0x40 } else { s3 }
    }

    /// A mounted image is well formed, and interrupts wait in the queue only
    /// behind one the CPU has not acknowledged, each with a nonzero code.
    pub open spec fn wf(&self) -> bool {
        &&& match self.disc {
            Some(d) => d.wf(),
            None => true,
        }
        &&& self.interrupt_flags & 7 == 0 ==> self.queued_interrupts@.len() == 0
        &&& forall|i: int| 0 <= i < self.queued_interrupts@.len() ==> 1 <= #[trigger] self.queued_interrupts@[i].code <= 7
    }

    /// The interrupts the CPU has yet to see, in order, each with its
    /// response bytes: the raised one (with what is left of its response),
    /// then the queued ones.
    pub open spec fn pending_interrupts(&self) -> Seq<(u8, Seq<u8>)> {
        let queued = self.queued_interrupts@.map_values(|q: QueuedInterrupt| (q.code, q.response@));
        if self.interrupt_flags & 7 == 0 {
            queued
        } else {
            seq![(self.interrupt_flags & 7, self.responses@)] + queued
        }
    }

    pub fn new() -> (r: Self)
        ensures
            r.index == 0 && r.mode == 0 && r.interrupt_enable == 0 && r.interrupt_flags == 0,
            r.params@.len() == 0 && r.responses@.len() == 0 && r.data@.len() == 0,
            r.queued_interrupts@.len() == 0,
            r.disc is None,
            r.loc_lba == 0,
            !r.read_active,
            r.last_sector_lba is None,
            r.wf(),
    {
        Self {
            index: 0,
            mode: 0,
            interrupt_enable: 0,
            interrupt_flags: 0,
            params: VecDeque::new(),
            responses: VecDeque::new(),
            data: VecDeque::new(),
            queued_interrupts: VecDeque::new(),
            disc: None,
            loc_lba: 0,
            read_active: false,
            last_sector_lba: None,
        }
    }

    /// Mounts an image; the read position returns to the start and any
    /// buffered sector data is dropped.  A rejected image leaves the drive as it was.
    pub fn load_disc_image(&mut self, bytes: Vec<u8>, sector_size: CdromSectorSize) -> (r: Result<(), CdromDiscError>)
        requires
            old(self).wf(),
        ensures
            final(self).wf(),
            bytes@.len() == 0 ==> r == Err::<(), CdromDiscError>(CdromDiscError::Empty) && *final(self) == *old(self),
            bytes@.len() > 0 && bytes@.len() % (sector_bytes_spec(sector_size) as nat) != 0 ==> r == Err::<
                (),
                CdromDiscError,
            >(CdromDiscError::MisalignedLength) && *final(self) == *old(self),
            bytes@.len() > 0 && bytes@.len() % (sector_bytes_spec(sector_size) as nat) == 0 ==> {
                &&& r is Ok
                &&& (final(self).disc matches Some(d) && d.bytes@ == bytes@ && d.sector_size == sector_size)
                &&& final(self).loc_lba == 0
                &&& !final(self).read_active
                &&& final(self).last_sector_lba is None
                &&& final(self).data@.len() == 0
                &&& final(self).responses == old(self).responses
                &&& final(self).interrupt_flags == old(self).interrupt_flags
            },
    {
        match CdromDisc::new(bytes, sector_size) {
            Ok(disc) => {
                self.disc = Some(disc);
                self.loc_lba = 0;
                self.read_active = false;
                self.last_sector_lba = None;
                self.data.clear();
                Ok(())
            },
            Err(e) => Err(e),
        }
    }

    pub fn eject_disc(&mut self)
        requires
            old(self).wf(),
        ensures
            final(self).disc is None,
            !final(self).read_active,
            final(self).data@.len() == 0,
            final(self).last_sector_lba is None,
            final(self).loc_lba == old(self).loc_lba,
            final(self).interrupt_flags == old(self).interrupt_flags,
            final(self).wf(),
    {
        self.disc = None;
        self.read_active = false;
        self.data.clear();
        self.last_sector_lba = None;
    }

    pub fn disc_sector_count(&self) -> (r: Option<usize>)
        ensures
            match self.disc {
                Some(d) => r == Some((d.bytes@.len() / (sector_bytes_spec(d.sector_size) as nat)) as usize),
                None => r is None,
            },
    {
        match &self.disc {
            Some(d) => Some(d.sector_count()),
            None => None,
        }
    }

    /// Register reads: status, response FIFO, data FIFO, and the interrupt
    /// enable (index 0/2) or flag (index 1/3) register.
    pub fn read8(&mut self, offset: u32) -> (r: u8)
        requires
            old(self).wf(),
        ensures
            final(self).wf(),
            cdrom_read8(*old(self), offset, *final(self), r),
    {
        let reg = offset & 3;
        if reg == 0 {
            self.status_register()
        } else if reg == 1 {
            match self.responses.pop_front() {
                Some(v) => v,
                None => 0,
            }
        } else if reg == 2 {
            self.pop_data_byte()
        } else {
            let i = self.index & 3;
            if i == 0 || i == 2 {
                self.interrupt_enable
            } else {
                self.interrupt_flags
            }
        }
    }

    /// Register writes: the index register, the command register (index 0),
    /// parameter FIFO (index 0) or interrupt enable (index 1), and interrupt
    /// acknowledge (index 1 or 3).
    pub fn write8(&mut self, offset: u32, value: u8)
        requires
            old(self).wf(),
        ensures
            final(self).wf(),
            cdrom_write8(*old(self), offset, value, *final(self)),
    {
        let reg = offset & 3;
        if reg == 0 {
            self.index = value & 3;
        } else if reg == 1 {
            if self.index == 0 {
                self.command(value);
            }
        } else if reg == 2 {
            let i = self.index & 3;
            if i == 0 {
                self.params.push_back(value);
            } else if i == 1 {
                self.interrupt_enable = value & 0x1f;
            }
        } else {
            let i = self.index & 3;
            if i == 1 || i == 3 {
                self.ack_interrupt(value & 0x1f);
            }
        }
    }

    /// DMA3: four data bytes, little-endian.
    pub fn dma_read32(&mut self) -> (r: u32)
        requires
            old(self).wf(),
        ensures
            final(self).wf(),
            cdrom_dma_read(*old(self), *final(self), r),
    {
        let b0 = self.pop_data_byte();
        let ghost c1 = *self;
        let b1 = self.pop_data_byte();
        let ghost c2 = *self;
        let b2 = self.pop_data_byte();
        let ghost c3 = *self;
        let b3 = self.pop_data_byte();
        proof {
            assert(data_byte_popped(*old(self), c1, b0) && data_byte_popped(c1, c2, b1) && data_byte_popped(c2, c3, b2)
                && data_byte_popped(c3, *self, b3));
        }
        let b0 = b0 as u32;
        let b1 = b1 as u32;
        let b2 = b2 as u32;
        let b3 = b3 as u32;
        proof {
            let d = old(self).data@;
            if d.len() > 4 {
                assert(self.data@ =~= d.subrange(4, d.len() as int));
            }
        }
        b0 | (b1 << 8u32) | (b2 << 16u32) | (b3 << 24u32)
    }

    pub fn interrupt_pending(&self) -> (r: bool)
        ensures
            r == self.spec_interrupt_pending(),
    {
        (self.interrupt_flags & self.interrupt_enable & 0x1f) != 0
    }

    fn status_register(&self) -> (r: u8)
        ensures
            r == self.spec_status_register(),
    {
        let mut status = self.index & 3;
        if self.params.len() == 0 {
            status = status | 0x08;
        }
        status = status | 0x10;
        if self.responses.len() > 0 {
            status = status | 0x20;
        }
        if self.data.len() > 0 {
            status = status | 0x40;
        }
        status
    }

    fn drive_status(&self) -> (r: u8)
        ensures
            r == self.spec_drive_status(),
    {
        let mut status = DRIVE_STATUS_MOTOR_ON;
        if self.read_active {
            status = status | DRIVE_STATUS_READ;
        }
        status
    }

    /// Runs a command byte with the parameters gathered so far.
    fn command(&mut self, command: u8)
        requires
            old(self).wf(),
        ensures
            final(self).wf(),
            final(self).params@.len() == 0,
            final(self).pending_interrupts() == old(self).pending_interrupts() + command_answer(*old(self), command, old(self).params@),
            command_done(*old(self), command, old(self).params@, *final(self)),
    {
        proof {
            reveal(command_answer);
        }
        let mut params: Vec<u8> = Vec::new();
        while self.params.len() > 0
            invariant
                self.wf(),
                params@ + self.params@ == old(self).params@,
                *self == (Cdrom { params: self.params, ..*old(self) }),
            decreases self.params@.len(),
        {
            let ghost before = self.params@;
            match self.params.pop_front() {
                Some(p) => params.push(p),
                None => {},
            }
            assert(params@ + self.params@ =~= old(self).params@) by {
                assert(before =~= seq![before[0]] + self.params@);
            }
        }
        assert(params@ =~= old(self).params@);
        proof {
            reveal(command_answer);
        }
        if command == 0x01 {
            let s = self.drive_status();
            let response = vec![s];
            assert(response@ == seq![s]);
            self.queue_interrupt(INT_ACK, response);
        } else if command == 0x02 {
            self.setloc(&params);
        } else if command == 0x06 || command == 0x1b {
            self.start_read();
        } else if command == 0x09 {
            self.pause();
        } else if command == 0x0a {
            self.init();
        } else if command == 0x0e {
            self.setmode(&params);
        } else if command == 0x0f {
            self.getparam();
        } else if command == 0x10 {
            self.getloc_l();
        } else if command == 0x19 {
            let s = self.drive_status();
            let response = vec![s, 0, 0, 0, 0];
            assert(response@ == seq![s, 0u8, 0u8, 0u8, 0u8]);
            self.queue_interrupt(INT_ACK, response);
        } else if command == 0x07 || command == 0x1e {
            self.ack_then_complete();
        } else if command == 0x08 || command == 0x15 || command == 0x16 {
            self.read_active = false;
            self.ack_then_complete();
        } else if command == 0x0b || command == 0x0c || command == 0x0d {
            let s = self.drive_status();
            let response = vec![s];
            assert(response@ == seq![s]);
            self.queue_interrupt(INT_ACK, response);
        } else if command == 0x11 {
            self.getloc_p();
        } else if command == 0x13 {
            self.get_tn();
        } else if command == 0x14 {
            self.get_td(&params);
        } else if command == 0x1a {
            self.get_id();
        } else {
            self.error_response();
        }
    }

    /// `Setloc`: three BCD bytes of minute, second and frame; the pregap of
    /// 150 frames is subtracted.
    fn setloc(&mut self, params: &Vec<u8>)
        requires
            old(self).wf(),
            old(self).params@.len() == 0,
        ensures
            final(self).wf(),
            final(self).params@.len() == 0,
            final(self).pending_interrupts() == old(self).pending_interrupts() + (if params@.len() < 3 { error_answer() } else { seq![(INT_ACK, seq![old(self).spec_drive_status()])] }),
            params@.len() >= 3 ==> {
                let absolute = ((bcd_to_u8_spec(params@[0]) * 60) + bcd_to_u8_spec(params@[1])) * 75 + bcd_to_u8_spec(params@[2]);
                final(self).loc_lba == if absolute >= 150 { (absolute - 150) as u32 } else { 0u32 }
            },
            command_done(*old(self), 0x02u8, params@, *final(self)),
    {
        proof {
            reveal(command_answer);
        }
        if params.len() < 3 {
            self.error_response();
            return;
        }
        let minute = bcd_to_u8(params[0]) as u32;
        let second = bcd_to_u8(params[1]) as u32;
        let frame = bcd_to_u8(params[2]) as u32;
        let absolute = ((minute * 60) + second) * 75 + frame;
        self.loc_lba = if absolute >= SECTOR_PREGAP {
            absolute - SECTOR_PREGAP
        } else {
            0
        };
        let s = self.drive_status();
        let response = vec![s];
        assert(response@ == seq![s]);
        self.queue_interrupt(INT_ACK, response);
    }

    fn start_read(&mut self)
        requires
            old(self).wf(),
            old(self).params@.len() == 0,
        ensures
            final(self).wf(),
            final(self).params@.len() == 0,
            final(self).pending_interrupts() == old(self).pending_interrupts() + (if old(self).disc is None {
                error_answer()
            } else {
                seq![(INT_ACK, seq![DRIVE_STATUS_MOTOR_ON | DRIVE_STATUS_READ])] + sector_answer(
                    *old(self),
                    DRIVE_STATUS_MOTOR_ON | DRIVE_STATUS_READ,
                )
            }),
            command_done(*old(self), 0x06u8, Seq::<u8>::empty(), *final(self)),
    {
        proof {
            reveal(command_answer);
        }
        if self.disc.is_none() {
            self.error_response();
            return;
        }
        self.read_active = true;
        let s = self.drive_status();
        let response = vec![s];
        assert(response@ == seq![s]);
        let ghost m0 = *self;
        self.queue_interrupt(INT_ACK, response);
        let ghost m1 = *self;
        self.queue_current_sector();
        proof {
            let x = seq![(INT_ACK, seq![s])];
            let y = sector_answer(m1, m1.spec_drive_status());
            lemma_answered_chain(m0, m1, *self, x, y);
            assert(y == sector_answer(*old(self), DRIVE_STATUS_MOTOR_ON | DRIVE_STATUS_READ));
        }
    }

    fn pause(&mut self)
        requires
            old(self).wf(),
            old(self).params@.len() == 0,
        ensures
            final(self).wf(),
            final(self).params@.len() == 0,
            final(self).pending_interrupts() == old(self).pending_interrupts() + seq![(INT_ACK, seq![DRIVE_STATUS_MOTOR_ON]), (INT_COMPLETE, seq![DRIVE_STATUS_MOTOR_ON])],
            !final(self).read_active,
            command_done(*old(self), 0x09u8, Seq::<u8>::empty(), *final(self)),
    {
        proof {
            reveal(command_answer);
        }
        self.read_active = false;
        let s = self.drive_status();
        let response = vec![s];
        assert(response@ == seq![s]);
        let ghost m0 = *self;
        self.queue_interrupt(INT_ACK, response);
        let ghost m1 = *self;
        let s2 = self.drive_status();
        let response = vec![s2];
        assert(response@ == seq![s2]);
        self.queue_interrupt(INT_COMPLETE, response);
        proof {
            lemma_answered_chain(m0, m1, *self, seq![(INT_ACK, seq![s])], seq![(INT_COMPLETE, seq![s2])]);
            assert(seq![(INT_ACK, seq![s])] + seq![(INT_COMPLETE, seq![s2])] =~= seq![(INT_ACK, seq![s]), (INT_COMPLETE, seq![s2])]);
        }
    }

    fn init(&mut self)
        requires
            old(self).wf(),
            old(self).params@.len() == 0,
        ensures
            final(self).wf(),
            final(self).params@.len() == 0,
            final(self).pending_interrupts() == old(self).pending_interrupts() + seq![(INT_ACK, seq![DRIVE_STATUS_MOTOR_ON])],
            final(self).mode == 0,
            !final(self).read_active,
            final(self).data@.len() == 0,
            command_done(*old(self), 0x0au8, Seq::<u8>::empty(), *final(self)),
    {
        proof {
            reveal(command_answer);
        }
        self.mode = 0;
        self.read_active = false;
        self.data.clear();
        let s = self.drive_status();
        let v = vec![s];
        assert(v@ == seq![s]);
        self.queue_interrupt(INT_ACK, v);
    }

    fn setmode(&mut self, params: &Vec<u8>)
        requires
            old(self).wf(),
            old(self).params@.len() == 0,
        ensures
            final(self).wf(),
            final(self).params@.len() == 0,
            final(self).pending_interrupts() == old(self).pending_interrupts() + (if params@.len() == 0 { error_answer() } else { seq![(INT_ACK, seq![old(self).spec_drive_status()])] }),
            params@.len() > 0 ==> final(self).mode == params@[0],
            params@.len() == 0 ==> final(self).mode == old(self).mode,
            command_done(*old(self), 0x0eu8, params@, *final(self)),
    {
        proof {
            reveal(command_answer);
        }
        if params.len() == 0 {
            self.error_response();
            return;
        }
        self.mode = params[0];
        let s = self.drive_status();
        let response = vec![s];
        assert(response@ == seq![s]);
        self.queue_interrupt(INT_ACK, response);
    }

    fn getparam(&mut self)
        requires
            old(self).wf(),
            old(self).params@.len() == 0,
        ensures
            final(self).wf(),
            final(self).params@.len() == 0,
            final(self).pending_interrupts() == old(self).pending_interrupts() + seq![(INT_ACK, seq![old(self).spec_drive_status(), old(self).mode, 0u8, 0u8, 0u8])],
            command_done(*old(self), 0x0fu8, Seq::<u8>::empty(), *final(self)),
    {
        proof {
            reveal(command_answer);
        }
        let s = self.drive_status();
        let m = self.mode;
        let response = vec![s, m, 0, 0, 0];
        assert(response@ == seq![s, m, 0u8, 0u8, 0u8]);
        self.queue_interrupt(INT_ACK, response);
    }

    fn getloc_l(&mut self)
        requires
            old(self).wf(),
            old(self).params@.len() == 0,
        ensures
            final(self).wf(),
            final(self).params@.len() == 0,
            final(self).pending_interrupts() == old(self).pending_interrupts() + ({
                let (m, sec, f) = lba_bcd_msf(reported_lba(*old(self)));
                seq![(INT_ACK, seq![m, sec, f, 0x02u8, 0u8, 0u8, 0x20u8, 0u8])]
            }),
            command_done(*old(self), 0x10u8, Seq::<u8>::empty(), *final(self)),
    {
        proof {
            reveal(command_answer);
        }
        let lba = match self.last_sector_lba {
            Some(l) => l,
            None => self.loc_lba,
        };
        let (minute, second, frame) = lba_to_bcd_msf(lba);
        let response = vec![minute, second, frame, 0x02, 0, 0, 0x20, 0];
        assert(response@ == seq![minute, second, frame, 0x02u8, 0u8, 0u8, 0x20u8, 0u8]);
        self.queue_interrupt(INT_ACK, response);
    }

    /// `MotorOn`, `Stop`, `SeekL`, `SeekP` and `ReadTOC`: an acknowledgement
    /// and then a completion, each with the drive status.
    fn ack_then_complete(&mut self)
        requires
            old(self).wf(),
            old(self).params@.len() == 0,
        ensures
            final(self).wf(),
            final(self).params@.len() == 0,
            final(self).pending_interrupts() == old(self).pending_interrupts() + seq![
                (INT_ACK, seq![old(self).spec_drive_status()]),
                (INT_COMPLETE, seq![old(self).spec_drive_status()]),
            ],
            final(self).read_active == old(self).read_active,
            drive_after(*old(self), *final(self), seq![(INT_ACK, seq![old(self).spec_drive_status()]), (INT_COMPLETE, seq![old(self).spec_drive_status()])], old(self).mode, old(self).loc_lba, old(self).read_active, old(self).data@, old(self).last_sector_lba),
    {
        let s = self.drive_status();
        let response = vec![s];
        assert(response@ == seq![s]);
        let ghost m0 = *self;
        self.queue_interrupt(INT_ACK, response);
        let ghost m1 = *self;
        let s2 = self.drive_status();
        let response = vec![s2];
        assert(response@ == seq![s2]);
        self.queue_interrupt(INT_COMPLETE, response);
        proof {
            lemma_answered_chain(m0, m1, *self, seq![(INT_ACK, seq![s])], seq![(INT_COMPLETE, seq![s2])]);
            assert(seq![(INT_ACK, seq![s])] + seq![(INT_COMPLETE, seq![s2])] =~= seq![(INT_ACK, seq![s]), (INT_COMPLETE, seq![s2])]);
        }
    }

    /// `GetlocP`: track 1, index 1, the position within the track and the
    /// absolute position on the disc, as BCD minute, second and frame.
    fn getloc_p(&mut self)
        requires
            old(self).wf(),
            old(self).params@.len() == 0,
        ensures
            final(self).wf(),
            final(self).params@.len() == 0,
            final(self).pending_interrupts() == old(self).pending_interrupts() + ({
                let (rm, rs, rf) = frames_bcd_msf(reported_lba(*old(self)) as int);
                let (am, as_, af) = lba_bcd_msf(reported_lba(*old(self)));
                seq![(INT_ACK, seq![0x01u8, 0x01u8, rm, rs, rf, am, as_, af])]
            }),
            command_done(*old(self), 0x11u8, Seq::<u8>::empty(), *final(self)),
    {
        proof {
            reveal(command_answer);
        }
        let lba = match self.last_sector_lba {
            Some(l) => l,
            None => self.loc_lba,
        };
        let (rm, rs, rf) = frames_to_bcd_msf(lba as u64);
        let (am, as_, af) = lba_to_bcd_msf(lba);
        let response = vec![0x01, 0x01, rm, rs, rf, am, as_, af];
        assert(response@ == seq![0x01u8, 0x01u8, rm, rs, rf, am, as_, af]);
        self.queue_interrupt(INT_ACK, response);
    }

    /// `GetTN`: a mounted image holds the single data track 1, so the first
    /// and last track numbers are both 1.
    fn get_tn(&mut self)
        requires
            old(self).wf(),
            old(self).params@.len() == 0,
        ensures
            final(self).wf(),
            final(self).params@.len() == 0,
            final(self).pending_interrupts() == old(self).pending_interrupts() + (if old(self).disc is None {
                error_answer()
            } else {
                seq![(INT_ACK, seq![old(self).spec_drive_status(), 0x01u8, 0x01u8])]
            }),
            old(self).disc is None ==> !final(self).read_active,
            command_done(*old(self), 0x13u8, Seq::<u8>::empty(), *final(self)),
    {
        proof {
            reveal(command_answer);
        }
        if self.disc.is_none() {
            self.error_response();
            return;
        }
        let s = self.drive_status();
        let response = vec![s, 0x01, 0x01];
        assert(response@ == seq![s, 0x01u8, 0x01u8]);
        self.queue_interrupt(INT_ACK, response);
    }

    /// `GetTD`: the start of a track as BCD minute and second.  Track 1
    /// starts after the two-second pregap; track 0 names the end of the disc.
    fn get_td(&mut self, params: &Vec<u8>)
        requires
            old(self).wf(),
            old(self).params@.len() == 0,
        ensures
            final(self).wf(),
            final(self).params@.len() == 0,
            final(self).pending_interrupts() == old(self).pending_interrupts() + ({
                let s = old(self).spec_drive_status();
                if params@.len() == 0 || old(self).disc is None {
                    error_answer()
                } else if bcd_to_u8_spec(params@[0]) == 1 {
                    seq![(INT_ACK, seq![s, 0x00u8, 0x02u8])]
                } else if bcd_to_u8_spec(params@[0]) == 0 {
                    let count = old(self).disc->0.bytes@.len() / (sector_bytes_spec(old(self).disc->0.sector_size) as nat);
                    let (m, sec, _f) = lba_bcd_msf(if count > 0xffff_ffff { 0xffff_ffffu32 } else { count as u32 });
                    seq![(INT_ACK, seq![s, m, sec])]
                } else {
                    error_answer()
                }
            }),
            command_done(*old(self), 0x14u8, params@, *final(self)),
    {
        proof {
            reveal(command_answer);
        }
        if params.len() == 0 || self.disc.is_none() {
            self.error_response();
            return;
        }
        let track = bcd_to_u8(params[0]);
        let s = self.drive_status();
        if track == 1 {
            let response = vec![s, 0x00, 0x02];
            assert(response@ == seq![s, 0x00u8, 0x02u8]);
            self.queue_interrupt(INT_ACK, response);
        } else if track == 0 {
            let count = match &self.disc {
                Some(d) => d.sector_count(),
                None => 0,
            };
            let sectors: u32 = if count > 0xffff_ffffusize {
                0xffff_ffffu32
            } else {
                count as u32
            };
            let (m, sec, _f) = lba_to_bcd_msf(sectors);
            let response = vec![s, m, sec];
            assert(response@ == seq![s, m, sec]);
            self.queue_interrupt(INT_ACK, response);
        } else {
            self.error_response();
        }
    }

    /// `GetID`: with a disc, a licensed-data-disc identification ("SCEA");
    /// without one, the "no disc" error.
    fn get_id(&mut self)
        requires
            old(self).wf(),
            old(self).params@.len() == 0,
        ensures
            final(self).wf(),
            final(self).params@.len() == 0,
            final(self).pending_interrupts() == old(self).pending_interrupts() + (if old(self).disc is Some {
                seq![
                    (INT_ACK, seq![old(self).spec_drive_status()]),
                    (INT_COMPLETE, seq![0x02u8, 0x00u8, 0x20u8, 0x00u8, 0x53u8, 0x43u8, 0x45u8, 0x41u8]),
                ]
            } else {
                seq![
                    (INT_ACK, seq![old(self).spec_drive_status()]),
                    (INT_ERROR, seq![0x08u8, 0x40u8, 0u8, 0u8, 0u8, 0u8, 0u8, 0u8]),
                ]
            }),
            command_done(*old(self), 0x1au8, Seq::<u8>::empty(), *final(self)),
    {
        proof {
            reveal(command_answer);
        }
        let s = self.drive_status();
        let response = vec![s];
        assert(response@ == seq![s]);
        let ghost m0 = *self;
        self.queue_interrupt(INT_ACK, response);
        let ghost m1 = *self;
        if self.disc.is_some() {
            let response = vec![0x02, 0x00, 0x20, 0x00, 0x53, 0x43, 0x45, 0x41];
            assert(response@ == seq![0x02u8, 0x00u8, 0x20u8, 0x00u8, 0x53u8, 0x43u8, 0x45u8, 0x41u8]);
            self.queue_interrupt(INT_COMPLETE, response);
            proof {
                lemma_answered_chain(m0, m1, *self, seq![(INT_ACK, seq![s])], seq![(INT_COMPLETE, response@)]);
                assert(seq![(INT_ACK, seq![s])] + seq![(INT_COMPLETE, response@)] =~= seq![(INT_ACK, seq![s]), (INT_COMPLETE, response@)]);
            }
        } else {
            let response = vec![0x08, 0x40, 0, 0, 0, 0, 0, 0];
            assert(response@ == seq![0x08u8, 0x40u8, 0u8, 0u8, 0u8, 0u8, 0u8, 0u8]);
            self.queue_interrupt(INT_ERROR, response);
            proof {
                lemma_answered_chain(m0, m1, *self, seq![(INT_ACK, seq![s])], seq![(INT_ERROR, response@)]);
                assert(seq![(INT_ACK, seq![s])] + seq![(INT_ERROR, response@)] =~= seq![(INT_ACK, seq![s]), (INT_ERROR, response@)]);
            }
        }
    }

    fn error_response(&mut self)
        requires
            old(self).wf(),
        ensures
            final(self).wf(),
            final(self).pending_interrupts() == old(self).pending_interrupts() + error_answer(),
            final(self).disc == old(self).disc,
            final(self).last_sector_lba == old(self).last_sector_lba,
            !final(self).read_active,
            final(self).params == old(self).params,
            final(self).data == old(self).data,
            final(self).mode == old(self).mode,
            final(self).loc_lba == old(self).loc_lba,
            drive_after(*old(self), *final(self), error_answer(), old(self).mode, old(self).loc_lba, false, old(self).data@, old(self).last_sector_lba),
    {
        self.read_active = false;
        let s = self.drive_status() | DRIVE_STATUS_ERROR;
        let response = vec![s, 0x80];
        assert(response@ == seq![s, 0x80u8]);
        self.queue_interrupt(INT_ERROR, response);
    }

    /// Loads the sector at the read position into the data FIFO, advances the
    /// position, and signals data-ready; past the end of the image it reports
    /// an error.
    fn queue_current_sector(&mut self)
        requires
            old(self).wf(),
        ensures
            final(self).wf(),
            final(self).pending_interrupts() == old(self).pending_interrupts() + sector_answer(*old(self), old(self).spec_drive_status()),
            old(self).disc matches Some(d) ==> (d.payload_start(old(self).loc_lba) matches Some(st) ==> {
                &&& final(self).data@ == d.bytes@.subrange(st, st + SECTOR_PAYLOAD_SIZE)
                &&& final(self).last_sector_lba == Some(old(self).loc_lba)
                &&& final(self).loc_lba == if old(self).loc_lba < u32::MAX { (old(self).loc_lba + 1) as u32 } else { u32::MAX }
            }),
            final(self).params == old(self).params,
            final(self).mode == old(self).mode,
            sector_read(*old(self), *final(self)),
    {
        let start = match &self.disc {
            Some(disc) => disc.sector_payload_start(self.loc_lba),
            None => {
                self.error_response();
                return;
            },
        };
        let start = match start {
            Some(s) => s,
            None => {
                self.error_response();
                return;
            },
        };
        let len = match &self.disc {
            Some(disc) => disc.bytes.len(),
            None => 0,
        };
        self.data.clear();
        assert(self.disc->0.bytes@.subrange(start as int, start as int) =~= self.data@);
        let mut k: usize = 0;
        while k < SECTOR_PAYLOAD_SIZE
            invariant
                (self.disc matches Some(d) && d.bytes@.len() == len),
                start + SECTOR_PAYLOAD_SIZE <= len,
                self.wf(),
                self.params == old(self).params,
                self.mode == old(self).mode,
                self.disc == old(self).disc,
                (self.disc matches Some(d) && start + SECTOR_PAYLOAD_SIZE <= d.bytes@.len()),
                k <= SECTOR_PAYLOAD_SIZE,
                (old(self).disc matches Some(d) && d.payload_start(old(self).loc_lba) == Some(start as int)),
                (self.disc matches Some(d) && self.data@ == d.bytes@.subrange(start as int, start + k)),
                self.interrupt_flags == old(self).interrupt_flags,
                self.responses == old(self).responses,
                self.queued_interrupts == old(self).queued_interrupts,
                self.loc_lba == old(self).loc_lba,
                self.read_active == old(self).read_active,
                self.index == old(self).index,
                self.interrupt_enable == old(self).interrupt_enable,
            decreases SECTOR_PAYLOAD_SIZE - k,
        {
            let byte = match &self.disc {
                Some(disc) => {
                    assert(start + k < disc.bytes@.len());
                    disc.bytes[start + k]
                },
                None => 0,
            };
            let ghost before = self.data@;
            self.data.push_back(byte);
            k += 1;
            proof {
                let d = self.disc->0;
                assert(self.data@ =~= d.bytes@.subrange(start as int, start + k));
            }
        }
        let lba = self.loc_lba;
        self.last_sector_lba = Some(lba);
        self.loc_lba = self.loc_lba.saturating_add(1);
        let s = self.drive_status();
        let response = vec![s];
        assert(response@ == seq![s]);
        self.queue_interrupt(INT_DATA_READY, response);
    }

    fn queue_next_sector_if_ready(&mut self)
        requires
            old(self).wf(),
        ensures
            final(self).wf(),
            next_sector_queued(*old(self), *final(self)),
    {
        if self.read_active && self.data.len() == 0 && (self.interrupt_flags & 7) == 0
            && self.queued_interrupts.len() == 0 {
            self.queue_current_sector();
        }
    }

    /// Raises an interrupt with its response bytes now, or queues it behind
    /// the one the CPU has not yet acknowledged.
    fn queue_interrupt(&mut self, code: u8, response: Vec<u8>)
        requires
            old(self).wf(),
            1 <= code <= 7,
        ensures
            final(self).wf(),
            final(self).pending_interrupts() == old(self).pending_interrupts().push((code, response@)),
            final(self).params == old(self).params,
            final(self).data == old(self).data,
            final(self).mode == old(self).mode,
            final(self).loc_lba == old(self).loc_lba,
            final(self).read_active == old(self).read_active,
            final(self).disc == old(self).disc,
            final(self).last_sector_lba == old(self).last_sector_lba,
            final(self).interrupt_enable == old(self).interrupt_enable,
            old(self).interrupt_flags & 7 == 0 ==> {
                &&& final(self).responses@ == response@
                &&& final(self).interrupt_flags == (old(self).interrupt_flags & !7u8) | (code & 7)
                &&& final(self).queued_interrupts == old(self).queued_interrupts
            },
            old(self).interrupt_flags & 7 != 0 ==> {
                &&& final(self).responses == old(self).responses
                &&& final(self).interrupt_flags == old(self).interrupt_flags
                &&& final(self).queued_interrupts@.len() == old(self).queued_interrupts@.len() + 1
                &&& final(self).queued_interrupts@.last().code == code
                &&& final(self).queued_interrupts@.last().response@ == response@
            },
            drive_after(*old(self), *final(self), seq![(code, response@)], old(self).mode, old(self).loc_lba, old(self).read_active, old(self).data@, old(self).last_sector_lba),
    {
        let ghost resp = response@;
        proof {
            lemma_interrupt_code(old(self).interrupt_flags, code);
            assert(old(self).pending_interrupts().push((code, resp)) =~= old(self).pending_interrupts() + seq![(code, resp)]);
        }
        if (self.interrupt_flags & 7) == 0 {
            self.activate_interrupt(code, response);
            proof {
                assert(self.queued_interrupts@.map_values(|q: QueuedInterrupt| (q.code, q.response@)) =~= Seq::<(u8, Seq<u8>)>::empty());
                assert(old(self).queued_interrupts@.map_values(|q: QueuedInterrupt| (q.code, q.response@)) =~= Seq::<(u8, Seq<u8>)>::empty());
                lemma_interrupt_code(old(self).interrupt_flags, code);
            }
        } else {
            self.queued_interrupts.push_back(QueuedInterrupt { code, response });
            proof {
                assert(self.queued_interrupts@.map_values(|q: QueuedInterrupt| (q.code, q.response@)) =~= old(
                    self,
                ).queued_interrupts@.map_values(|q: QueuedInterrupt| (q.code, q.response@)).push((code, resp)));
                lemma_interrupt_code(old(self).interrupt_flags, code);
            }
        }
    }

    fn activate_interrupt(&mut self, code: u8, response: Vec<u8>)
        ensures
            final(self).responses@ == response@,
            final(self).interrupt_flags == (old(self).interrupt_flags & !7u8) | (code & 7),
            *final(self) == (Cdrom {
                responses: final(self).responses,
                interrupt_flags: final(self).interrupt_flags,
                ..*old(self)
            }),
    {
        self.responses.clear();
        let mut k: usize = 0;
        while k < response.len()
            invariant
                k <= response@.len(),
                self.responses@ == response@.subrange(0, k as int),
                self.index == old(self).index,
                self.mode == old(self).mode,
                self.interrupt_enable == old(self).interrupt_enable,
                self.interrupt_flags == old(self).interrupt_flags,
                self.params == old(self).params,
                self.data == old(self).data,
                self.queued_interrupts == old(self).queued_interrupts,
                self.disc == old(self).disc,
                self.loc_lba == old(self).loc_lba,
                self.read_active == old(self).read_active,
                self.last_sector_lba == old(self).last_sector_lba,
            decreases response@.len() - k,
        {
            self.responses.push_back(response[k]);
            k += 1;
        }
        assert(response@.subrange(0, response@.len() as int) =~= response@);
        self.interrupt_flags = (self.interrupt_flags & !7u8) | (code & 7);
    }

    /// Acknowledges the flags in `mask`; once the current interrupt is
    /// cleared the next queued one (or the next sector) is delivered.
    fn ack_interrupt(&mut self, mask: u8)
        requires
            old(self).wf(),
        ensures
            final(self).wf(),
            final(self).interrupt_flags & 7 == 0 ==> old(self).interrupt_flags & !mask & 7 == 0,
            acknowledged(*old(self), mask, *final(self)),
    {
        self.interrupt_flags = self.interrupt_flags & !mask;
        if (self.interrupt_flags & 7) == 0 {
            let ghost queued = self.queued_interrupts@;
            let ghost before = *self;
            if self.queued_interrupts.len() == 0 {
                proof {
                    assert(before.pending_interrupts() =~= Seq::<(u8, Seq<u8>)>::empty());
                }
                self.queue_next_sector_if_ready();
                return;
            }
            match self.queued_interrupts.pop_front() {
                Some(interrupt) => {
                    proof {
                        assert(queued[0] == interrupt);
                        lemma_interrupt_code(self.interrupt_flags, interrupt.code);
                        assert forall|i: int| 0 <= i < self.queued_interrupts@.len() implies 1
                            <= #[trigger] self.queued_interrupts@[i].code <= 7 by {
                            assert(self.queued_interrupts@[i] == queued[i + 1]);
                        }
                    }
                    let ghost resp = interrupt.response@;
                    self.activate_interrupt(interrupt.code, interrupt.response);
                    proof {
                        let mapped = queued.map_values(|q: QueuedInterrupt| (q.code, q.response@));
                        assert(old(self).pending_interrupts() =~= seq![(old(self).interrupt_flags & 7, old(self).responses@)] + mapped);
                        assert(self.queued_interrupts@.map_values(|q: QueuedInterrupt| (q.code, q.response@)) =~= mapped.drop_first());
                        assert(self.pending_interrupts() =~= seq![(interrupt.code, resp)] + mapped.drop_first());
                        assert(mapped[0] == (interrupt.code, resp));
                        assert(self.pending_interrupts() =~= mapped);
                        assert(old(self).pending_interrupts().drop_first() =~= mapped);
                    }
                },
                None => {},
            }
        }
    }

    fn pop_data_byte(&mut self) -> (r: u8)
        requires
            old(self).wf(),
        ensures
            final(self).wf(),
            r == if old(self).data@.len() > 0 { old(self).data@[0] } else { 0u8 },
            old(self).data@.len() > 1 ==> final(self).data@ == old(self).data@.drop_first() && *final(self) == (Cdrom {
                data: final(self).data,
                ..*old(self)
            }),
            data_byte_popped(*old(self), *final(self), r),
    {
        let value = match self.data.pop_front() {
            Some(v) => v,
            None => 0,
        };
        let ghost mid = *self;
        self.queue_next_sector_if_ready();
        proof {
            assert(next_sector_queued(mid, *self));
        }
        value
    }
}

impl Default for Cdrom {
    fn default() -> (r: Self)
        ensures
            r.disc is None,
            r.wf(),
    {
        Self::new()
    }
}

fn bcd_to_u8(value: u8) -> (r: u8)
    ensures
        r == bcd_to_u8_spec(value),
{
    let hi = (value >> 4) & 0x0f;
    let lo = value & 0x0f;
    hi * 10 + lo
}

fn u8_to_bcd(value: u8) -> (r: u8)
    ensures
        r == u8_to_bcd_spec(value),
{
    ((value / 10) << 4u8) | (value % 10)
}

/// A count of frames as BCD minute, second and frame (a minute count past
/// 255 keeps its low byte).
pub open spec fn frames_bcd_msf(frames: int) -> (u8, u8, u8) {
    (
        u8_to_bcd_spec((frames / 4500) as u8),
        u8_to_bcd_spec(((frames / 75) % 60) as u8),
        u8_to_bcd_spec((frames % 75) as u8),
    )
}

/// An LBA as BCD minute, second and frame, counting the 150-frame pregap.
pub open spec fn lba_bcd_msf(lba: u32) -> (u8, u8, u8) {
    frames_bcd_msf(lba + 150)
}

fn frames_to_bcd_msf(frames: u64) -> (r: (u8, u8, u8))
    ensures
        r == frames_bcd_msf(frames as int),
{
    let minute = (frames / (60 * 75)) as u8;
    let second = ((frames / 75) % 60) as u8;
    let frame = (frames % 75) as u8;
    (u8_to_bcd(minute), u8_to_bcd(second), u8_to_bcd(frame))
}

fn lba_to_bcd_msf(lba: u32) -> (r: (u8, u8, u8))
    ensures
        r == lba_bcd_msf(lba),
{
    frames_to_bcd_msf(lba as u64 + 150)
}

} // verus!
