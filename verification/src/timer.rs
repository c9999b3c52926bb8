//! The three root counters.
use crate::interrupt::{InterruptController, IRQ_LINES, IRQ_TIMER0, IRQ_TIMER1, IRQ_TIMER2};
use vstd::prelude::*;

verus! {

pub const MODE_SYNC_ENABLE: u16 = 0x0001u16;
pub const MODE_RESET_ON_TARGET: u16 = 0x0008u16;
pub const MODE_IRQ_ON_TARGET: u16 = 0x0010u16;
pub const MODE_IRQ_ON_OVERFLOW: u16 = 0x0020u16;
pub const MODE_IRQ_REPEAT: u16 = 0x0040u16;
pub const MODE_IRQ_TOGGLE: u16 = 0x0080u16;
pub const MODE_IRQ_REQUEST: u16 = 0x0400u16;
pub const MODE_REACHED_TARGET: u16 = 0x0800u16;
pub const MODE_REACHED_OVERFLOW: u16 = 0x1000u16;

#[derive(Debug, Clone, Copy)]
pub struct Timer {
    pub counter: u16,
    pub mode: u16,
    pub target: u16,
    pub irq_fired: bool,
    pub divider_accum: u32,
    pub sync_free_run: bool,
}

/// A counter as it comes out of reset.
pub open spec fn initial_timer() -> Timer {
    Timer { counter: 0, mode: 0, target: 0xffff, irq_fired: false, divider_accum: 0, sync_free_run: false }
}

/// The synchronisation mode field of a counter mode register.
pub open spec fn sync_mode_spec(mode: u16) -> u16 {
    (mode >> 1u16) & 3u16
}

/// The clock source field of a counter mode register.
pub open spec fn clock_source_spec(mode: u16) -> u16 {
    (mode >> 8u16) & 3u16
}

/// How many CPU cycles make one tick of counter `index`; `None` when the
/// counter is clocked by HBlank edges instead.
pub open spec fn timer_divisor_spec(index: int, mode: u16) -> Option<u32> {
    let source = clock_source_spec(mode);
    if index == 0 && (source == 1 || source == 3) {
        Some(5u32)
    } else if index == 1 && (source == 1 || source == 3) {
        None
    } else if index == 2 && source >= 2 {
        Some(8u32)
    } else {
        Some(1u32)
    }
}

/// The interrupt line of counter `index`.
pub open spec fn timer_irq_line(index: int) -> u16 {
    if index == 0 {
        IRQ_TIMER0
    } else if index == 1 {
        IRQ_TIMER1
    } else {
        IRQ_TIMER2
    }
}

/// Whether counter `index` counts at all, given its gate signal.
pub open spec fn counter_enabled_spec(t: Timer, index: int, hblank: bool, vblank: bool) -> bool {
    if t.mode & MODE_SYNC_ENABLE == 0 {
        true
    } else {
        let m = sync_mode_spec(t.mode);
        if index == 0 {
            if m == 0 { !hblank } else if m == 1 { true } else if m == 2 { hblank } else { t.sync_free_run }
        } else if index == 1 {
            if m == 0 { !vblank } else if m == 1 { true } else if m == 2 { vblank } else { t.sync_free_run }
        } else {
            m == 1 || m == 2
        }
    }
}

/// One increment of a counter: the counter value, the reached flags, the
/// reset-on-target rule, and the pulse/toggle interrupt request rules.  The
/// boolean says whether an interrupt is requested.
pub open spec fn clock_step(t: Timer) -> (Timer, bool) {
    let counter1: u16 = if t.counter == 0xffff { 0 } else { (t.counter + 1) as u16 };
    let reached_target = counter1 == t.target;
    let reached_overflow = t.counter == 0xffff;
    let mode0: u16 = if reached_target { t.mode | MODE_REACHED_TARGET } else { t.mode };
    let mode1: u16 = if reached_overflow { mode0 | MODE_REACHED_OVERFLOW } else { mode0 };
    let counter2: u16 = if mode1 & MODE_RESET_ON_TARGET != 0 && reached_target { 0 } else { counter1 };
    let wants_irq = (mode1 & MODE_IRQ_ON_TARGET != 0 && reached_target) || (mode1 & MODE_IRQ_ON_OVERFLOW != 0
        && reached_overflow);
    let fire = wants_irq && (mode1 & MODE_IRQ_REPEAT != 0 || !t.irq_fired);
    if !fire {
        (Timer { counter: counter2, mode: mode1, ..t }, false)
    } else if mode1 & MODE_IRQ_TOGGLE != 0 {
        if mode1 & MODE_IRQ_REQUEST != 0 {
            (Timer { counter: counter2, mode: mode1 & !MODE_IRQ_REQUEST, irq_fired: true, ..t }, true)
        } else {
            (Timer { counter: counter2, mode: mode1 | MODE_IRQ_REQUEST, irq_fired: true, ..t }, false)
        }
    } else {
        (Timer { counter: counter2, mode: mode1 & !MODE_IRQ_REQUEST, irq_fired: true, ..t }, true)
    }
}

/// One clock pulse delivered to counter `index`, with the interrupt status word
/// threaded through.
pub open spec fn clock_once(t: Timer, irq: u16, index: int, hblank: bool, vblank: bool) -> (Timer, u16) {
    if !counter_enabled_spec(t, index, hblank, vblank) {
        (t, irq)
    } else {
        let (t1, fire) = clock_step(t);
        (t1, if fire { irq | (timer_irq_line(index) & IRQ_LINES) } else { irq })
    }
}

/// `n` clock pulses delivered to counter `index`.
pub open spec fn clock_n(t: Timer, irq: u16, index: int, hblank: bool, vblank: bool, n: nat) -> (Timer, u16)
    decreases n,
{
    if n == 0 {
        (t, irq)
    } else {
        let (t1, irq1) = clock_n(t, irq, index, hblank, vblank, (n - 1) as nat);
        clock_once(t1, irq1, index, hblank, vblank)
    }
}

/// What `cycles` CPU cycles do to counter `index`: the divider accumulates the
/// cycles (saturating) and every whole divisor's worth of them clocks the counter.
pub open spec fn tick_timer(t: Timer, irq: u16, index: int, cycles: u32, hblank: bool, vblank: bool) -> (Timer, u16) {
    match timer_divisor_spec(index, t.mode) {
        None => (t, irq),
        Some(d) => {
            let acc: u32 = if t.divider_accum + cycles > u32::MAX { u32::MAX } else { (t.divider_accum + cycles) as u32 };
            clock_n(Timer { divider_accum: (acc % d) as u32, ..t }, irq, index, hblank, vblank, (acc / d) as nat)
        },
    }
}

/// A rising gate edge on counter `t` (HBlank for counter 0, VBlank for counter 1).
pub open spec fn sync_edge_spec(t: Timer) -> Timer {
    if t.mode & MODE_SYNC_ENABLE == 0 {
        t
    } else {
        let m = sync_mode_spec(t.mode);
        if m == 1 || m == 2 {
            Timer { counter: 0, ..t }
        } else if m == 3 {
            Timer { sync_free_run: true, ..t }
        } else {
            t
        }
    }
}

impl Timer {
    pub fn new() -> (r: Self)
        ensures
            r.counter == 0,
            r.mode == 0,
            r.target == 0xffff,
            !r.irq_fired,
            r.divider_accum == 0,
            !r.sync_free_run,
    {
        Self { counter: 0, mode: 0, target: 0xffff, irq_fired: false, divider_accum: 0, sync_free_run: false }
    }

    pub fn counter(&self) -> (r: u16)
        ensures
            r == self.counter,
    {
        self.counter
    }

    pub fn mode(&self) -> (r: u16)
        ensures
            r == self.mode,
    {
        self.mode
    }

    pub fn target(&self) -> (r: u16)
        ensures
            r == self.target,
    {
        self.target
    }

    /// Writing the counter also restarts the clock divider.
    pub fn set_counter(&mut self, value: u16)
        ensures
            *final(self) == (Timer { counter: value, divider_accum: 0, ..*old(self) }),
    {
        self.counter = value;
        self.divider_accum = 0;
    }

    /// Writing the mode register resets the counter, re-arms one-shot
    /// interrupts, and sets the interrupt request line high (inactive).
    pub fn set_mode(&mut self, value: u16)
        ensures
            *final(self) == (Timer {
                mode: (value & 0x03ff) | MODE_IRQ_REQUEST,
                counter: 0,
                irq_fired: false,
                divider_accum: 0,
                sync_free_run: false,
                ..*old(self)
            }),
    {
        self.mode = (value & 0x03ff) | 0x0400;
        self.counter = 0;
        self.irq_fired = false;
        self.divider_accum = 0;
        self.sync_free_run = false;
    }

    pub fn set_target(&mut self, value: u16)
        ensures
            *final(self) == (Timer { target: value, ..*old(self) }),
    {
        self.target = value;
    }
}

impl Default for Timer {
    fn default() -> (r: Self)
        ensures
            r.counter == 0,
            r.mode == 0,
            r.target == 0xffff,
            !r.irq_fired,
            r.divider_accum == 0,
            !r.sync_free_run,
    {
        Self::new()
    }
}

#[derive(Debug, Clone)]
pub struct Timers {
    pub timers: [Timer; 3],
    pub hblank: bool,
    pub vblank: bool,
}

fn timer_divisor(index: usize, mode: u16) -> (r: Option<u32>)
    ensures
        r == timer_divisor_spec(index as int, mode),
{
    let clock_source = (mode >> 8) & 0x3;
    if index == 0 && (clock_source == 1 || clock_source == 3) {
        Some(5)
    } else if index == 1 && (clock_source == 1 || clock_source == 3) {
        None
    } else if index == 2 && clock_source >= 2 {
        Some(8)
    } else {
        Some(1)
    }
}

fn timer1_uses_hblank_clock(mode: u16) -> (r: bool)
    ensures
        r == (clock_source_spec(mode) == 1 || clock_source_spec(mode) == 3),
{
    let source = (mode >> 8) & 0x3;
    source == 1 || source == 3
}

fn sync_mode(mode: u16) -> (r: u16)
    ensures
        r == sync_mode_spec(mode),
{
    (mode >> 1) & 0x3
}

/// The register offset within a counter's 16-byte block.
pub open spec fn timer_reg(offset: u32) -> u32 {
    offset & 0x0f
}

/// Which counter an offset addresses (3 means none).
pub open spec fn timer_index(offset: u32) -> u32 {
    (offset >> 4u32) & 3u32
}

/// What a write of `value` to the counter register at `offset` does.
pub open spec fn timer_register_written(o: Timers, offset: u32, value: u16, n: Timers) -> bool {
    &&& (n.hblank == o.hblank)
    &&& (n.vblank == o.vblank)
    &&& (timer_index(offset) >= 3 ==> n.timers == o.timers)
    &&& (timer_index(offset) < 3 ==> {
        let i = timer_index(offset) as int;
        let t = o.timers[i];
        &&& forall|j: int| 0 <= j < 3 && j != i ==> n.timers[j] == o.timers[j]
        &&& n.timers[i] == if timer_reg(offset) == 0 {
            Timer { counter: value, divider_accum: 0, ..t }
        } else if timer_reg(offset) == 4 {
            Timer {
                mode: (value & 0x03ff) | MODE_IRQ_REQUEST,
                counter: 0,
                irq_fired: false,
                divider_accum: 0,
                sync_free_run: false,
                ..t
            }
        } else if timer_reg(offset) == 8 {
            Timer { target: value, ..t }
        } else {
            t
        }
    })
}

/// How the three counters advance by `cycles` CPU cycles, starting from the
/// interrupt status `status` and leaving it at `status_after`.
pub open spec fn timers_ticked(o: Timers, status: u16, cycles: u32, n: Timers, status_after: u16) -> bool {
    let hb = o.hblank;
    let vb = o.vblank;
    let (t0, s0) = tick_timer(o.timers[0], status, 0, cycles, hb, vb);
    let (t1, s1) = tick_timer(o.timers[1], s0, 1, cycles, hb, vb);
    let (t2, s2) = tick_timer(o.timers[2], s1, 2, cycles, hb, vb);
    &&& n.hblank == hb
    &&& n.vblank == vb
    &&& n.timers[0] == t0
    &&& n.timers[1] == t1
    &&& n.timers[2] == t2
    &&& status_after == s2
}

/// A read of the counter register at `offset`: the value `r` and the counters after it.
pub open spec fn timer_register_read(o: Timers, offset: u32, n: Timers, r: u16) -> bool {
    &&& (n.hblank == o.hblank)
    &&& (n.vblank == o.vblank)
    &&& (timer_index(offset) >= 3 ==> r == 0xffff && n.timers == o.timers)
    &&& (timer_index(offset) < 3 ==> {
        let i = timer_index(offset) as int;
        let t = o.timers[i];
        &&& forall|j: int| 0 <= j < 3 && j != i ==> n.timers[j] == o.timers[j]
        &&& r == if timer_reg(offset) == 0 {
            t.counter
        } else if timer_reg(offset) == 4 {
            t.mode
        } else if timer_reg(offset) == 8 {
            t.target
        } else {
            0xffffu16
        }
        &&& n.timers[i] == if timer_reg(offset) == 4 {
            Timer { mode: t.mode & !(MODE_REACHED_TARGET | MODE_REACHED_OVERFLOW), ..t }
        } else {
            t
        }
    })
}

impl Timers {
    pub fn new() -> (r: Self)
        ensures
            forall|i: int| 0 <= i < 3 ==> #[trigger] r.timers[i] == initial_timer(),
            !r.hblank,
            !r.vblank,
    {
        Self { timers: [Timer::new(), Timer::new(), Timer::new()], hblank: false, vblank: false }
    }

    /// Reads a counter register.  Reading the mode register clears its two
    /// "reached" flags.
    pub fn read16(&mut self, offset: u32) -> (r: u16)
        ensures
            timer_register_read(*old(self), offset, *final(self), r),
    {
        let index = ((offset >> 4) & 0x3) as usize;
        let reg = offset & 0x0f;
        if index >= 3 {
            return 0xffff;
        }
        if reg == 0 {
            self.timers[index].counter
        } else if reg == 4 {
            let mut t = self.timers[index];
            let mode = t.mode;
            t.mode = t.mode & !(MODE_REACHED_TARGET | MODE_REACHED_OVERFLOW);
            self.timers[index] = t;
            mode
        } else if reg == 8 {
            self.timers[index].target
        } else {
            0xffff
        }
    }

    /// Writes a counter register (counter, mode or target).
    pub fn write16(&mut self, offset: u32, value: u16)
        ensures
            timer_register_written(*old(self), offset, value, *final(self)),
    {
        let index = ((offset >> 4) & 0x3) as usize;
        let reg = offset & 0x0f;
        if index >= 3 {
            return;
        }
        let mut t = self.timers[index];
        if reg == 0 {
            t.set_counter(value);
        } else if reg == 4 {
            t.set_mode(value);
        } else if reg == 8 {
            t.set_target(value);
        }
        self.timers[index] = t;
    }

    /// Advances all three counters by `cpu_cycles` CPU cycles.
    pub fn tick(&mut self, cpu_cycles: u32, irq: &mut InterruptController)
        ensures
            final(irq).spec_mask() == old(irq).spec_mask(),
            timers_ticked(*old(self), old(irq).spec_status(), cpu_cycles, *final(self), final(irq).spec_status()),
    {
        let ghost s_start = irq.spec_status();
        self.tick_timer(0, cpu_cycles, irq);
        let ghost s0 = irq.spec_status();
        self.tick_timer(1, cpu_cycles, irq);
        let ghost s1 = irq.spec_status();
        self.tick_timer(2, cpu_cycles, irq);
    }

    fn tick_timer(&mut self, index: usize, cpu_cycles: u32, irq: &mut InterruptController)
        requires
            index < 3,
        ensures
            final(self).hblank == old(self).hblank,
            final(self).vblank == old(self).vblank,
            final(irq).spec_mask() == old(irq).spec_mask(),
            forall|j: int| 0 <= j < 3 && j != index ==> final(self).timers[j] == old(self).timers[j],
            (final(self).timers[index as int], final(irq).spec_status()) == tick_timer(
                old(self).timers[index as int],
                old(irq).spec_status(),
                index as int,
                cpu_cycles,
                old(self).hblank,
                old(self).vblank,
            ),
    {
        let divisor = match timer_divisor(index, self.timers[index].mode) {
            Some(d) => d,
            None => {
                return;
            },
        };
        let acc = self.timers[index].divider_accum.saturating_add(cpu_cycles);
        let count = acc / divisor;
        let mut t = self.timers[index];
        t.divider_accum = acc % divisor;
        self.timers[index] = t;
        let ghost t_start = self.timers[index as int];
        let ghost s_start = irq.spec_status();
        let ghost old_timers = self.timers;
        let mut k: u32 = 0;
        while k < count
            invariant
                index < 3,
                k <= count,
                self.hblank == old(self).hblank,
                self.vblank == old(self).vblank,
                irq.spec_mask() == old(irq).spec_mask(),
                forall|j: int| 0 <= j < 3 && j != index ==> self.timers[j] == old(self).timers[j],
                (self.timers[index as int], irq.spec_status()) == clock_n(
                    t_start,
                    s_start,
                    index as int,
                    self.hblank,
                    self.vblank,
                    k as nat,
                ),
            decreases count - k,
        {
            self.clock_timer(index, irq);
            k += 1;
        }
    }

    /// Drives the HBlank gate.  A rising edge synchronises counter 0 and, when
    /// counter 1 counts HBlanks, clocks counter 1.
    pub fn set_hblank(&mut self, active: bool, irq: &mut InterruptController)
        ensures
            final(self).hblank == active,
            final(self).vblank == old(self).vblank,
            final(irq).spec_mask() == old(irq).spec_mask(),
            final(self).timers[2] == old(self).timers[2],
            !(!old(self).hblank && active) ==> final(self).timers == old(self).timers && final(irq).spec_status()
                == old(irq).spec_status(),
            (!old(self).hblank && active) ==> {
                &&& final(self).timers[0] == sync_edge_spec(old(self).timers[0])
                &&& if clock_source_spec(old(self).timers[1].mode) == 1 || clock_source_spec(old(self).timers[1].mode)
                    == 3 {
                    (final(self).timers[1], final(irq).spec_status()) == clock_once(
                        old(self).timers[1],
                        old(irq).spec_status(),
                        1,
                        true,
                        old(self).vblank,
                    )
                } else {
                    final(self).timers[1] == old(self).timers[1] && final(irq).spec_status() == old(irq).spec_status()
                }
            },
    {
        let rising = !self.hblank && active;
        self.hblank = active;
        if rising {
            self.handle_sync_edge(0);
            if timer1_uses_hblank_clock(self.timers[1].mode) {
                self.clock_timer(1, irq);
            }
        }
    }

    /// Drives the VBlank gate.  A rising edge synchronises counter 1.
    pub fn set_vblank(&mut self, active: bool)
        ensures
            final(self).vblank == active,
            final(self).hblank == old(self).hblank,
            final(self).timers[0] == old(self).timers[0],
            final(self).timers[2] == old(self).timers[2],
            final(self).timers[1] == if !old(self).vblank && active {
                sync_edge_spec(old(self).timers[1])
            } else {
                old(self).timers[1]
            },
    {
        let rising = !self.vblank && active;
        self.vblank = active;
        if rising {
            self.handle_sync_edge(1);
        }
    }

    fn handle_sync_edge(&mut self, index: usize)
        requires
            index < 3,
        ensures
            final(self).hblank == old(self).hblank,
            final(self).vblank == old(self).vblank,
            forall|j: int| 0 <= j < 3 && j != index ==> final(self).timers[j] == old(self).timers[j],
            final(self).timers[index as int] == sync_edge_spec(old(self).timers[index as int]),
    {
        let mut timer = self.timers[index];
        if (timer.mode & 0x0001) == 0 {
            return;
        }
        let m = sync_mode(timer.mode);
        if m == 1 || m == 2 {
            timer.counter = 0;
        } else if m == 3 {
            timer.sync_free_run = true;
        }
        self.timers[index] = timer;
    }

    fn clock_timer(&mut self, index: usize, irq: &mut InterruptController)
        requires
            index < 3,
        ensures
            final(self).hblank == old(self).hblank,
            final(self).vblank == old(self).vblank,
            final(irq).spec_mask() == old(irq).spec_mask(),
            forall|j: int| 0 <= j < 3 && j != index ==> final(self).timers[j] == old(self).timers[j],
            (final(self).timers[index as int], final(irq).spec_status()) == clock_once(
                old(self).timers[index as int],
                old(irq).spec_status(),
                index as int,
                old(self).hblank,
                old(self).vblank,
            ),
    {
        if !self.counter_enabled(index) {
            return;
        }
        let mut timer = self.timers[index];
        let old_counter = timer.counter;
        timer.counter = timer.counter.wrapping_add(1);
        let reached_target = timer.counter == timer.target;
        let reached_overflow = old_counter == 0xffff;
        if reached_target {
            timer.mode = timer.mode | 0x0800;
        }
        if reached_overflow {
            timer.mode = timer.mode | 0x1000;
        }
        let reset_on_target = (timer.mode & 0x0008) != 0;
        if reset_on_target && reached_target {
            timer.counter = 0;
        }
        let irq_on_target = (timer.mode & 0x0010) != 0 && reached_target;
        let irq_on_overflow = (timer.mode & 0x0020) != 0 && reached_overflow;
        if irq_on_target || irq_on_overflow {
            let repeat = (timer.mode & 0x0040) != 0;
            if repeat || !timer.irq_fired {
                timer.irq_fired = true;
                fire_timer_irq(&mut timer, index, irq);
            }
        }
        self.timers[index] = timer;
    }

    fn counter_enabled(&self, index: usize) -> (r: bool)
        requires
            index < 3,
        ensures
            r == counter_enabled_spec(self.timers[index as int], index as int, self.hblank, self.vblank),
    {
        let timer = self.timers[index];
        if (timer.mode & 0x0001) == 0 {
            return true;
        }
        let m = sync_mode(timer.mode);
        if index == 0 {
            if m == 0 {
                !self.hblank
            } else if m == 1 {
                true
            } else if m == 2 {
                self.hblank
            } else {
                timer.sync_free_run
            }
        } else if index == 1 {
            if m == 0 {
                !self.vblank
            } else if m == 1 {
                true
            } else if m == 2 {
                self.vblank
            } else {
                timer.sync_free_run
            }
        } else {
            m == 1 || m == 2
        }
    }
}

impl Default for Timers {
    fn default() -> (r: Self)
        ensures
            forall|i: int| 0 <= i < 3 ==> #[trigger] r.timers[i] == initial_timer(),
            !r.hblank,
            !r.vblank,
    {
        Self::new()
    }
}

/// Applies the pulse or toggle rule of the interrupt request line and raises
/// the counter's interrupt when the line goes active.
fn fire_timer_irq(timer: &mut Timer, index: usize, irq: &mut InterruptController)
    ensures
        final(irq).spec_mask() == old(irq).spec_mask(),
        old(timer).mode & MODE_IRQ_TOGGLE != 0 && old(timer).mode & MODE_IRQ_REQUEST == 0 ==> {
            &&& *final(timer) == (Timer { mode: old(timer).mode | MODE_IRQ_REQUEST, ..*old(timer) })
            &&& final(irq).spec_status() == old(irq).spec_status()
        },
        !(old(timer).mode & MODE_IRQ_TOGGLE != 0 && old(timer).mode & MODE_IRQ_REQUEST == 0) ==> {
            &&& *final(timer) == (Timer { mode: old(timer).mode & !MODE_IRQ_REQUEST, ..*old(timer) })
            &&& final(irq).spec_status() == old(irq).spec_status() | (timer_irq_line(index as int) & IRQ_LINES)
        },
{
    let toggle = (timer.mode & 0x0080) != 0;
    let request = if toggle {
        let was_high = (timer.mode & 0x0400) != 0;
        if was_high {
            timer.mode = timer.mode & !0x0400u16;
            true
        } else {
            timer.mode = timer.mode | 0x0400;
            false
        }
    } else {
        timer.mode = timer.mode & !0x0400u16;
        true
    };
    if request {
        irq.request(
            if index == 0 {
                IRQ_TIMER0
            } else if index == 1 {
                IRQ_TIMER1
            } else {
                IRQ_TIMER2
            },
        );
    }
}

} // verus!

verus! {

/// Setting the two "reached" flags leaves the interrupt-mode bits (4 to 7) alone.
proof fn lemma_reached_flags_keep_irq_bits(m: u16)
    by (bit_vector)
    ensures
        (m | 0x0800u16) & 0x0010u16 == m & 0x0010u16,
        (m | 0x1000u16) & 0x0010u16 == m & 0x0010u16,
        ((m | 0x0800u16) | 0x1000u16) & 0x0010u16 == m & 0x0010u16,
        (m | 0x0800u16) & 0x0020u16 == m & 0x0020u16,
        (m | 0x1000u16) & 0x0020u16 == m & 0x0020u16,
        ((m | 0x0800u16) | 0x1000u16) & 0x0020u16 == m & 0x0020u16,
        (m | 0x0800u16) & 0x0040u16 == m & 0x0040u16,
        (m | 0x1000u16) & 0x0040u16 == m & 0x0040u16,
        ((m | 0x0800u16) | 0x1000u16) & 0x0040u16 == m & 0x0040u16,
        (m | 0x0800u16) & 0x0080u16 == m & 0x0080u16,
        (m | 0x1000u16) & 0x0080u16 == m & 0x0080u16,
        ((m | 0x0800u16) | 0x1000u16) & 0x0080u16 == m & 0x0080u16,
{
}

/// With the interrupt on target off, a clock step requests the counter's
/// interrupt only when the counter wraps from 0xffff; reaching the target
/// alone never does.
pub proof fn lemma_overflow_irq_only_on_wrap(t: Timer)
    requires
        t.mode & MODE_IRQ_ON_TARGET == 0,
    ensures
        clock_step(t).1 ==> t.counter == 0xffff,
{
    lemma_reached_flags_keep_irq_bits(t.mode);
}

/// With the interrupt on overflow off, a clock step requests the counter's
/// interrupt only when the counter reaches the target value.
pub proof fn lemma_target_irq_only_on_target(t: Timer)
    requires
        t.mode & MODE_IRQ_ON_OVERFLOW == 0,
    ensures
        clock_step(t).1 ==> (if t.counter == 0xffff { 0 } else { t.counter + 1 }) == t.target,
{
    lemma_reached_flags_keep_irq_bits(t.mode);
}

/// With the interrupt on overflow on, pulse mode, and the interrupt not
/// used up (repeat mode, or not fired yet), the step that wraps the counter
/// from 0xffff requests the interrupt.
pub proof fn lemma_overflow_irq_fires_on_wrap(t: Timer)
    requires
        t.mode & MODE_IRQ_ON_OVERFLOW != 0,
        t.mode & MODE_IRQ_TOGGLE == 0,
        t.mode & MODE_IRQ_REPEAT != 0 || !t.irq_fired,
        t.counter == 0xffff,
    ensures
        clock_step(t).1,
{
    lemma_reached_flags_keep_irq_bits(t.mode);
}

} // verus!
