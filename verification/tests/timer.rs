use lib::timer::Timers;
use lib::interrupt::{InterruptController, IRQ_TIMER0, IRQ_TIMER1, IRQ_TIMER2};

fn clear_irq(irq: &mut InterruptController, bit: u16) {
    irq.acknowledge(!bit);
}

#[test]
fn one_shot_target_irq_suppresses_later_target_events() {
    let mut timers = Timers::new();
    let mut irq = InterruptController::new();
    timers.write16(0x8, 1);
    timers.write16(0x4, (1 << 3) | (1 << 4));

    timers.tick(1, &mut irq);
    assert_ne!(irq.status() & IRQ_TIMER0, 0);
    clear_irq(&mut irq, IRQ_TIMER0);

    timers.tick(1, &mut irq);
    assert_eq!(irq.status() & IRQ_TIMER0, 0);
}

#[test]
fn repeat_pulse_target_irq_requests_every_target_event() {
    let mut timers = Timers::new();
    let mut irq = InterruptController::new();
    timers.write16(0x8, 1);
    timers.write16(0x4, (1 << 3) | (1 << 4) | (1 << 6));

    timers.tick(1, &mut irq);
    assert_ne!(irq.status() & IRQ_TIMER0, 0);
    clear_irq(&mut irq, IRQ_TIMER0);
    timers.tick(1, &mut irq);

    assert_ne!(irq.status() & IRQ_TIMER0, 0);
}

#[test]
fn repeat_toggle_irq_requests_on_every_other_event() {
    let mut timers = Timers::new();
    let mut irq = InterruptController::new();
    timers.write16(0x8, 1);
    timers.write16(0x4, (1 << 3) | (1 << 4) | (1 << 6) | (1 << 7));

    timers.tick(1, &mut irq);
    assert_ne!(irq.status() & IRQ_TIMER0, 0);
    clear_irq(&mut irq, IRQ_TIMER0);

    timers.tick(1, &mut irq);
    assert_eq!(irq.status() & IRQ_TIMER0, 0);

    timers.tick(1, &mut irq);
    assert_ne!(irq.status() & IRQ_TIMER0, 0);
}

#[test]
fn timer2_clock_source_can_divide_system_clock_by_eight() {
    let mut timers = Timers::new();
    let mut irq = InterruptController::new();
    timers.write16(0x24, 2 << 8);

    timers.tick(7, &mut irq);
    assert_eq!(timers.read16(0x20), 0);

    timers.tick(1, &mut irq);
    assert_eq!(timers.read16(0x20), 1);
    assert_eq!(irq.status() & IRQ_TIMER2, 0);
}

#[test]
fn timer1_hblank_clock_counts_hblank_edges() {
    let mut timers = Timers::new();
    let mut irq = InterruptController::new();
    timers.write16(0x14, 1 << 8);

    timers.tick(100, &mut irq);
    assert_eq!(timers.read16(0x10), 0);

    timers.set_hblank(true, &mut irq);
    timers.set_hblank(false, &mut irq);
    timers.set_hblank(true, &mut irq);

    assert_eq!(timers.read16(0x10), 2);
    assert_eq!(irq.status() & IRQ_TIMER1, 0);
}

#[test]
fn sync_pause_mode_stops_timer0_during_hblank() {
    let mut timers = Timers::new();
    let mut irq = InterruptController::new();
    timers.write16(0x4, 1);

    timers.tick(1, &mut irq);
    assert_eq!(timers.read16(0x0), 1);

    timers.set_hblank(true, &mut irq);
    timers.tick(10, &mut irq);

    assert_eq!(timers.read16(0x0), 1);
}
