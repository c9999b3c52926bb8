//! PlayStation 1 emulator core: CPU, memory bus and devices, with their
//! register-level behaviour stated as contracts.

pub mod audio;
pub mod bus;
pub mod cli;
pub mod bits;
pub mod cdrom;
pub mod cpu;
pub mod cue;
pub mod dma;
pub mod gpu;
pub mod interrupt;
pub mod joy;
pub mod mdec;
pub mod scheduler;
pub mod test_runner;
pub mod timer;
pub mod wav;

use bus::Bus;
use cpu::Cpu;
use scheduler::{Event, EventKind, Scheduler};
use vstd::prelude::*;

verus! {

pub const CPU_CLOCK_HZ: u32 = 33_868_800u32;
pub const MAIN_RAM_SIZE: usize = 0x20_0000usize;
pub const SCRATCHPAD_SIZE: usize = 1024usize;
pub const BIOS_SIZE: usize = 0x8_0000usize;
pub const GPU_VRAM_WIDTH: usize = 1024usize;
pub const GPU_VRAM_HEIGHT: usize = 512usize;
pub const GPU_VRAM_PIXELS: usize = 0x8_0000usize;
pub const SPU_RAM_SIZE: usize = 0x8_0000usize;

/// A conservative NTSC frame length in CPU cycles (the clock divided by 60).
pub const APPROX_CYCLES_PER_FRAME: u64 = 564_480u64;

} // verus!

verus! {

/// The whole console: CPU, bus with its devices, and the event scheduler.
#[derive(Debug, Clone)]
pub struct Ps1 {
    pub cpu: Cpu,
    pub bus: Bus,
    pub scheduler: Scheduler,
}

#[derive(Debug, Clone, Copy, PartialEq, Eq, Structural)]
pub enum ExeLoadError {
    InvalidHeader,
    PayloadTooLarge,
    TruncatedPayload,
    LoadAddressOutOfRange,
}

/// Room left on the cycle counter for a step and the next frame event.
pub open spec fn clock_room(timestamp: u64, cycles: int) -> bool {
    timestamp + cycles + APPROX_CYCLES_PER_FRAME + 4 <= u64::MAX
}

/// The little-endian word at `offset`.
pub open spec fn le_word(bytes: Seq<u8>, offset: int) -> u32 {
    (bytes[offset] as u32) | ((bytes[offset + 1] as u32) << 8u32) | ((bytes[offset + 2] as u32) << 16u32) | ((
    bytes[offset + 3] as u32) << 24u32)
}

/// A PS-X EXE header: the "PS-X EXE" magic in a file of at least 2 KiB.
pub open spec fn exe_header_ok(exe: Seq<u8>) -> bool {
    &&& exe.len() >= 0x800
    &&& exe[0] == 0x50 && exe[1] == 0x53 && exe[2] == 0x2d && exe[3] == 0x58
    &&& exe[4] == 0x20 && exe[5] == 0x45 && exe[6] == 0x58 && exe[7] == 0x45
}

/// Why an executable cannot be loaded, if it cannot: a bad header, a
/// payload size that overflows, a payload beyond the file's end, or a
/// payload that would run past the end of main RAM.
pub open spec fn exe_load_error(exe: Seq<u8>) -> Option<ExeLoadError> {
    let size = le_word(exe, 0x1c) as int;
    let start = (crate::bus::physical_addr_spec(le_word(exe, 0x18)) % 0x20_0000) as int;
    if !exe_header_ok(exe) {
        Some(ExeLoadError::InvalidHeader)
    } else if 0x800 + size > usize::MAX {
        Some(ExeLoadError::PayloadTooLarge)
    } else if 0x800 + size > exe.len() {
        Some(ExeLoadError::TruncatedPayload)
    } else if start + size > MAIN_RAM_SIZE {
        Some(ExeLoadError::LoadAddressOutOfRange)
    } else {
        None
    }
}

/// The bus after a VBlank: the timers see the vertical blank begin and end,
/// and the VBlank interrupt is requested.
pub open spec fn vblank_handled(o: Bus, n: Bus) -> bool {
    &&& n == (Bus { timers: n.timers, irq: n.irq, ..o })
    &&& n.irq.spec_status() == o.irq.spec_status() | (interrupt::IRQ_VBLANK & interrupt::IRQ_LINES)
    &&& n.irq.spec_mask() == o.irq.spec_mask()
    &&& !n.timers.vblank
    &&& n.timers.hblank == o.timers.hblank
    &&& n.timers.timers[0] == o.timers.timers[0]
    &&& n.timers.timers[2] == o.timers.timers[2]
    &&& n.timers.timers[1] == if !o.timers.vblank {
        timer::sync_edge_spec(o.timers.timers[1])
    } else {
        o.timers.timers[1]
    }
}

/// One console step from `o` to `n`: the CPU runs one step, the devices
/// advance by its two cycles, and a VBlank that has come due is handled and
/// scheduled again one frame later.
pub open spec fn console_stepped(o: Ps1, n: Ps1) -> bool {
    let ts = o.scheduler.timestamp + 2;
    let due = o.scheduler.queue@[0].fire_time <= ts;
    &&& n.scheduler.timestamp == ts
    &&& exists|b1: Bus, b2: Bus|
        {
            &&& #[trigger] cpu::cpu_stepped(o.cpu, o.bus, n.cpu, b1)
            &&& #[trigger] bus::bus_ticked(b1, 2, b2)
            &&& due ==> vblank_handled(b2, n.bus) && n.scheduler.queue@ == seq![
                Event { fire_time: (ts + APPROX_CYCLES_PER_FRAME) as u64, kind: EventKind::VBlank },
            ]
            &&& !due ==> n.bus == b2 && n.scheduler.queue@ == o.scheduler.queue@
        }
}

/// Step `i` of a run.
pub open spec fn run_link(states: Seq<Ps1>, i: int) -> bool {
    console_stepped(states[i], states[i + 1])
}

/// A run from `o` to `n`: console steps, each taken while the clock is
/// still before `target`, until it has reached `target`.
pub open spec fn console_ran(o: Ps1, target: int, n: Ps1) -> bool {
    exists|states: Seq<Ps1>|
        {
            &&& states.len() >= 1
            &&& states[0] == o
            &&& states.last() == n
            &&& forall|i: int| 0 <= i < states.len() - 1 ==> #[trigger] run_link(states, i)
            &&& forall|i: int| 0 <= i < states.len() - 1 ==> #[trigger] states[i].scheduler.timestamp < target
            &&& n.scheduler.timestamp >= target
        }
}

impl Ps1 {
    /// The CPU and bus are well formed, and the scheduler holds exactly the
    /// next VBlank.
    pub open spec fn wf(&self) -> bool {
        &&& self.cpu.wf()
        &&& self.bus.wf()
        &&& self.scheduler.queue@.len() == 1
        &&& self.scheduler.queue@[0].kind == EventKind::VBlank
    }

    pub fn new(bios: Option<Vec<u8>>) -> (r: Self)
        ensures
            r.wf(),
            r.cpu.is_reset(),
            r.scheduler.timestamp == 0,
            r.scheduler.queue@ == seq![Event { fire_time: APPROX_CYCLES_PER_FRAME, kind: EventKind::VBlank }],
            r.bus.bios@ == Bus::bios_image(match bios { Some(b) => b@, None => Seq::empty() }),
    {
        let mut ps1 = Ps1 { cpu: Cpu::new(), bus: Bus::new(bios), scheduler: Scheduler::new() };
        ps1.schedule_initial_events();
        assert(ps1.scheduler.queue@ =~= seq![Event { fire_time: APPROX_CYCLES_PER_FRAME, kind: EventKind::VBlank }]);
        ps1
    }

    fn schedule_initial_events(&mut self)
        ensures
            final(self).scheduler.queue@ == old(self).scheduler.queue@.push(
                Event { fire_time: APPROX_CYCLES_PER_FRAME, kind: EventKind::VBlank },
            ),
            final(self).scheduler.timestamp == old(self).scheduler.timestamp,
            final(self).cpu == old(self).cpu && final(self).bus == old(self).bus,
    {
        self.scheduler.schedule(Event { fire_time: APPROX_CYCLES_PER_FRAME, kind: EventKind::VBlank });
    }

    /// Resets the CPU and the scheduler; memory and devices keep their state.
    pub fn reset(&mut self)
        requires
            old(self).wf(),
        ensures
            final(self).wf(),
            final(self).cpu.is_reset(),
            final(self).bus == old(self).bus,
            final(self).scheduler.timestamp == 0,
    {
        self.cpu.reset();
        self.scheduler = Scheduler::new();
        self.schedule_initial_events();
    }

    /// Runs one CPU step, advances the devices and the clock by its cycles,
    /// and handles every event that has become due.  Returns the cycles.
    pub fn step_one(&mut self) -> (r: u32)
        requires
            old(self).wf(),
            clock_room(old(self).scheduler.timestamp, 2),
        ensures
            final(self).wf(),
            r == 2,
            final(self).scheduler.timestamp == old(self).scheduler.timestamp + 2,
            console_stepped(*old(self), *final(self)),
    {
        let cycles = self.cpu.step(&mut self.bus);
        let ghost b1 = self.bus;
        self.bus.tick(cycles);
        let ghost b2 = self.bus;
        self.scheduler.add_cycles(cycles as u64);
        let ghost ts = self.scheduler.timestamp;
        let ghost mut dispatched = false;
        loop
            invariant
                self.wf(),
                self.scheduler.timestamp == old(self).scheduler.timestamp + 2,
                ts == self.scheduler.timestamp,
                clock_room(old(self).scheduler.timestamp, 2),
                cpu::cpu_stepped(old(self).cpu, old(self).bus, self.cpu, b1),
                bus::bus_ticked(b1, 2, b2),
                !dispatched ==> self.bus == b2 && self.scheduler.queue@ == old(self).scheduler.queue@,
                dispatched ==> vblank_handled(b2, self.bus) && self.scheduler.queue@ == seq![
                    Event { fire_time: (ts + APPROX_CYCLES_PER_FRAME) as u64, kind: EventKind::VBlank },
                ] && old(self).scheduler.queue@[0].fire_time <= ts,
            ensures
                dispatched <==> old(self).scheduler.queue@[0].fire_time <= ts,
            decreases (if self.scheduler.queue@[0].fire_time <= self.scheduler.timestamp { 1int } else { 0int }),
        {
            match self.scheduler.pop_if_ready() {
                Some(event) => {
                    proof {
                        assert(!dispatched);
                        assert(self.scheduler.queue@.len() == 0);
                    }
                    self.dispatch_event(event);
                    proof {
                        dispatched = true;
                    }
                },
                None => {
                    break;
                },
            }
        }
        proof {
            assert(cpu::cpu_stepped(old(self).cpu, old(self).bus, self.cpu, b1) && bus::bus_ticked(b1, 2, b2));
        }
        cycles
    }

    /// Runs whole steps until the clock reaches `cycles` more cycles.
    pub fn run_cycles(&mut self, cycles: u64)
        requires
            old(self).wf(),
            clock_room(old(self).scheduler.timestamp, cycles + 2),
        ensures
            final(self).wf(),
            final(self).scheduler.timestamp >= old(self).scheduler.timestamp + cycles,
            final(self).scheduler.timestamp <= old(self).scheduler.timestamp + cycles + 1,
            console_ran(*old(self), old(self).scheduler.timestamp + cycles, *final(self)),
    {
        let target = self.scheduler.timestamp + cycles;
        let ghost mut states: Seq<Ps1> = seq![*self];
        while self.scheduler.timestamp() < target
            invariant
                self.wf(),
                target == old(self).scheduler.timestamp + cycles,
                clock_room(old(self).scheduler.timestamp, cycles + 2),
                old(self).scheduler.timestamp <= self.scheduler.timestamp <= target + 1,
                states.len() >= 1,
                states[0] == *old(self),
                states.last() == *self,
                forall|i: int| 0 <= i < states.len() - 1 ==> #[trigger] run_link(states, i),
                forall|i: int| 0 <= i < states.len() - 1 ==> #[trigger] states[i].scheduler.timestamp < target,
            decreases target + 2 - self.scheduler.timestamp,
        {
            let ghost prev = states;
            let ghost before = *self;
            self.step_one();
            proof {
                states = states.push(*self);
                assert(states[prev.len() - 1] == before);
                assert forall|i: int| 0 <= i < states.len() - 1 implies #[trigger] run_link(states, i) by {
                    if i < prev.len() - 1 {
                        assert(run_link(prev, i));
                        assert(states[i] == prev[i] && states[i + 1] == prev[i + 1]);
                    } else {
                        assert(states[i] == before && states[i + 1] == *self);
                    }
                }
                assert forall|i: int| 0 <= i < states.len() - 1 implies #[trigger] states[i].scheduler.timestamp
                    < target by {
                    if i < prev.len() - 1 {
                        assert(states[i] == prev[i]);
                    }
                }
            }
        }
    }

    /// Runs one frame's worth of cycles.
    pub fn run_frame(&mut self)
        requires
            old(self).wf(),
            clock_room(old(self).scheduler.timestamp, APPROX_CYCLES_PER_FRAME + 2),
        ensures
            final(self).wf(),
            final(self).scheduler.timestamp >= old(self).scheduler.timestamp + APPROX_CYCLES_PER_FRAME,
            console_ran(*old(self), old(self).scheduler.timestamp + APPROX_CYCLES_PER_FRAME, *final(self)),
    {
        self.run_cycles(APPROX_CYCLES_PER_FRAME);
    }

    /// Moves queued stereo samples (interleaved left, right) into `out`,
    /// oldest first; the rest of `out` is zeroed.  Returns how many were moved.
    pub fn drain_audio(&mut self, out: &mut [i16]) -> (r: usize)
        requires
            old(self).wf(),
        ensures
            final(self).wf(),
            r == if old(out)@.len() < old(self).bus.spu.output@.len() {
                old(out)@.len()
            } else {
                old(self).bus.spu.output@.len() as nat
            },
            final(out)@.len() == old(out)@.len(),
            forall|i: int| 0 <= i < r ==> #[trigger] final(out)@[i] == old(self).bus.spu.output@[i],
            forall|i: int| r <= i < old(out)@.len() ==> #[trigger] final(out)@[i] == 0,
            final(self).bus.spu.output@ == old(self).bus.spu.output@.subrange(r as int, old(self).bus.spu.output@.len() as int),
            final(self).cpu == old(self).cpu,
            final(self).scheduler == old(self).scheduler,
    {
        self.bus.spu.drain_audio(out)
    }

    /// VBlank: pulses the timers' vertical blank, raises IRQ0 and schedules the next one.
    fn dispatch_event(&mut self, event: Event)
        requires
            old(self).cpu.wf() && old(self).bus.wf(),
            old(self).scheduler.queue@.len() == 0,
            clock_room(old(self).scheduler.timestamp, 0),
        ensures
            final(self).wf(),
            final(self).scheduler.timestamp == old(self).scheduler.timestamp,
            final(self).scheduler.queue@ == seq![
                Event { fire_time: (old(self).scheduler.timestamp + APPROX_CYCLES_PER_FRAME) as u64, kind: EventKind::VBlank },
            ],
            final(self).cpu == old(self).cpu,
            vblank_handled(old(self).bus, final(self).bus),
    {
        match event.kind {
            EventKind::VBlank => {
                self.bus.timers.set_vblank(true);
                self.bus.timers.set_vblank(false);
                self.bus.irq.request(interrupt::IRQ_VBLANK);
                let fire_time = self.scheduler.timestamp() + APPROX_CYCLES_PER_FRAME;
                self.scheduler.schedule(Event { fire_time, kind: EventKind::VBlank });
                assert(self.scheduler.queue@ =~= seq![Event { fire_time, kind: EventKind::VBlank }]);
            },
        }
    }

    /// Loads a PS-X EXE: its payload (after the 2 KiB header) into RAM at
    /// the load address, and the initial PC, GP and (when the stack base is
    /// set) SP from the header.
    pub fn load_psx_exe(&mut self, exe: &[u8]) -> (r: Result<(), ExeLoadError>)
        requires
            old(self).wf(),
        ensures
            final(self).wf(),
            r is Ok <==> exe_load_error(exe@) is None,
            r matches Err(err) ==> exe_load_error(exe@) == Some(err),
            final(self).scheduler == old(self).scheduler,
            ({
                let e = exe@;
                let size = le_word(e, 0x1c) as int;
                let load = le_word(e, 0x18);
                let start = (crate::bus::physical_addr_spec(load) % 0x20_0000) as int;
                &&& !exe_header_ok(e) ==> r == Err::<(), ExeLoadError>(ExeLoadError::InvalidHeader)
                &&& exe_header_ok(e) && 0x800 + size > usize::MAX ==> r == Err::<(), ExeLoadError>(ExeLoadError::PayloadTooLarge)
                &&& exe_header_ok(e) && 0x800 + size <= usize::MAX && 0x800 + size > e.len() ==> r == Err::<(), ExeLoadError>(ExeLoadError::TruncatedPayload)
                &&& exe_header_ok(e) && 0x800 + size <= e.len() && start + size > MAIN_RAM_SIZE ==> r == Err::<(), ExeLoadError>(ExeLoadError::LoadAddressOutOfRange)
                &&& r is Err ==> *final(self) == *old(self)
                &&& r is Ok ==> {
                    &&& exe_header_ok(e) && 0x800 + size <= e.len() && start + size <= MAIN_RAM_SIZE
                    &&& final(self).bus.ram@ == old(self).bus.ram@.subrange(0, start) + e.subrange(0x800, 0x800 + size)
                        + old(self).bus.ram@.subrange(start + size, MAIN_RAM_SIZE as int)
                    &&& final(self).cpu.pc == le_word(e, 0x10)
                    &&& final(self).cpu.next_pc == le_word(e, 0x10).wrapping_add(4)
                    &&& final(self).cpu.regs[28] == le_word(e, 0x14)
                    &&& final(self).cpu.regs[29] == if le_word(e, 0x30) != 0 {
                        le_word(e, 0x30).wrapping_add(le_word(e, 0x34))
                    } else {
                        old(self).cpu.regs[29]
                    }
                }
            }),
    {
        if exe.len() < 0x800 || exe[0] != 0x50 || exe[1] != 0x53 || exe[2] != 0x2d || exe[3] != 0x58 || exe[4] != 0x20
            || exe[5] != 0x45 || exe[6] != 0x58 || exe[7] != 0x45 {
            return Err(ExeLoadError::InvalidHeader);
        }
        let initial_pc = read_le_u32(exe, 0x10)?;
        let initial_gp = read_le_u32(exe, 0x14)?;
        let load_addr = read_le_u32(exe, 0x18)?;
        let file_size = read_le_u32(exe, 0x1c)? as usize;
        let sp_base = match read_le_u32(exe, 0x30) {
            Ok(v) => v,
            Err(_) => 0,
        };
        let sp_offset = match read_le_u32(exe, 0x34) {
            Ok(v) => v,
            Err(_) => 0,
        };
        if file_size > usize::MAX - 0x800 {
            return Err(ExeLoadError::PayloadTooLarge);
        }
        let payload_end = 0x800 + file_size;
        if payload_end > exe.len() {
            return Err(ExeLoadError::TruncatedPayload);
        }
        match self.bus.copy_to_ram(load_addr, &exe[0x800..payload_end]) {
            Ok(()) => {},
            Err(_) => {
                return Err(ExeLoadError::LoadAddressOutOfRange);
            },
        }
        self.cpu.set_pc(initial_pc);
        self.cpu.regs[28] = initial_gp;
        if sp_base != 0 {
            self.cpu.regs[29] = sp_base.wrapping_add(sp_offset);
        }
        Ok(())
    }
}

/// Reads a little-endian word; a read past the end is a header error.
pub fn read_le_u32(bytes: &[u8], offset: usize) -> (r: Result<u32, ExeLoadError>)
    ensures
        offset + 4 <= bytes@.len() ==> r == Ok::<u32, ExeLoadError>(le_word(bytes@, offset as int)),
        offset + 4 > bytes@.len() ==> r == Err::<u32, ExeLoadError>(ExeLoadError::InvalidHeader),
{
    let n = bytes.len();
    if offset > n || n - offset < 4 {
        return Err(ExeLoadError::InvalidHeader);
    }
    let b0 = bytes[offset] as u32;
    let b1 = bytes[offset + 1] as u32;
    let b2 = bytes[offset + 2] as u32;
    let b3 = bytes[offset + 3] as u32;
    Ok(b0 | (b1 << 8u32) | (b2 << 16u32) | (b3 << 24u32))
}

} // verus!
