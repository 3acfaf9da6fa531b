use gba_core::timers::TIMER_IO_BASE;
use gba_core::{
    Dma, Event, Interrupt, InterruptControl, Scheduler, Sio, Timers, DMA_CHANNELS, NUM_TIMERS,
};

#[test]
fn an_acknowledge_clears_only_what_it_names() {
    let mut irq = InterruptControl::new();
    irq.request(Interrupt::VBlank);
    irq.request(Interrupt::Timer0);
    irq.request(Interrupt::GamePak);
    irq.write_u8(0x202, 0x01);
    assert_eq!(irq.read_u8(0x202), 0x08);
    assert_eq!(irq.read_u8(0x203), 0x20);
    irq.write_u8(0x203, 0xFF);
    assert_eq!(irq.read_u8(0x203), 0);
    assert_eq!(irq.read_u8(0x202), 0x08);
}

#[test]
fn an_enabled_request_is_raised() {
    let mut irq = InterruptControl::new();
    irq.write_u8(0x201, 0x10);
    assert!(!irq.raised());
    irq.request(Interrupt::Keypad);
    assert!(irq.raised());
    assert!(!irq.pending());
    irq.write_u8(0x208, 1);
    assert!(irq.pending());
}

#[test]
fn sources_of_channels_and_timers_are_distinct() {
    let mut seen = 0u16;
    for ch in 0..DMA_CHANNELS {
        seen |= Interrupt::dma(ch).bit();
    }
    for i in 0..NUM_TIMERS {
        seen |= Interrupt::timer(i).bit();
    }
    assert_eq!(seen, 0x0F78);
}

#[test]
fn the_serial_port_stores() {
    let mut sio = Sio::new();
    sio.write_u8(0x128, 0x34);
    sio.write_u8(0x129, 0x12);
    assert_eq!(sio.read_u8(0x128), 0x34);
    assert_eq!(sio.read_u8(0x129), 0x12);
    assert_eq!(sio.read_u8(0x12A), 0);
}

#[test]
fn the_clock_ignores_an_earlier_cycle() {
    let mut sched: Scheduler<u8> = Scheduler::new();
    sched.advance(100);
    sched.advance_to(50);
    assert_eq!(sched.now(), 100);
    sched.advance(u64::MAX);
    assert_eq!(sched.now(), u64::MAX);
}

#[test]
fn events_of_one_cycle_keep_their_order() {
    let mut sched: Scheduler<u32> = Scheduler::new();
    for (i, when) in [30u64, 10, 20, 10, 30, 10].into_iter().enumerate() {
        sched.schedule_at(when, i as u32);
    }
    sched.advance_to(40);
    let mut order = Vec::new();
    while let Some(event) = sched.pop_due() {
        order.push(event);
    }
    assert_eq!(order, vec![1, 3, 5, 2, 0, 4]);
    assert!(sched.is_empty());
}

#[test]
fn an_event_in_the_past_is_due_at_once() {
    let mut sched: Scheduler<u32> = Scheduler::new();
    sched.advance_to(500);
    sched.schedule_at(3, 9);
    assert_eq!(sched.next_event_cycle(), Some(3));
    assert_eq!(sched.pop_due(), Some(9));
    assert_eq!(sched.pop_due(), None);
}

fn write_dma(dma: &mut Dma, ch: u32, bytes: [u8; 12]) {
    for (i, b) in bytes.into_iter().enumerate() {
        dma.write_u8(0xB0 + ch * 12 + i as u32, b);
    }
}

#[test]
fn plans_stay_within_the_hardware() {
    for ch in 0..4u32 {
        let mut dma = Dma::new();
        write_dma(&mut dma, ch, [0xFF, 0xFF, 0xFF, 0xFF, 0xFF, 0xFF, 0xFF, 0xFF, 0, 0, 0, 0x84]);
        let plan = dma.plan(ch as usize);
        assert_eq!(plan.count, if ch == 3 { 0x1_0000 } else { 0x4000 });
        assert_eq!(plan.src, if ch == 0 { 0x07FF_FFFC } else { 0x0FFF_FFFC });
        assert_eq!(plan.dst, if ch == 3 { 0x0FFF_FFFC } else { 0x07FF_FFFC });
        assert_eq!((plan.src_step, plan.dst_step), (4, 4));
    }
}

#[test]
fn a_channel_triggers_once_per_rise() {
    let mut dma = Dma::new();
    write_dma(&mut dma, 2, [0, 0, 0, 0, 0, 0, 0, 0, 1, 0, 0, 0x80]);
    assert!(dma.poll_channel(2));
    assert!(!dma.poll_channel(2));
    dma.finish_immediate(2);
    assert_eq!(dma.control(2), 0);
    assert!(!dma.poll_channel(2));
    dma.write_u8(0xB0 + 24 + 11, 0x80);
    assert!(dma.poll_channel(2));
}

fn start(t: &mut Timers, sched: &mut Scheduler<Event>, i: u32, reload: u16, control: u8, now: u64) {
    t.write_u8(TIMER_IO_BASE + i * 4, reload as u8, now, sched);
    t.write_u8(TIMER_IO_BASE + i * 4 + 1, (reload >> 8) as u8, now, sched);
    t.write_u8(TIMER_IO_BASE + i * 4 + 2, control, now, sched);
}

fn counter(t: &Timers, i: u32, now: u64) -> u16 {
    let low = t.read_u8(TIMER_IO_BASE + i * 4, now) as u16;
    let high = t.read_u8(TIMER_IO_BASE + i * 4 + 1, now) as u16;
    high << 8 | low
}

#[test]
fn a_reload_is_not_the_counter() {
    let mut t = Timers::new();
    let mut sched = Scheduler::new();
    start(&mut t, &mut sched, 0, 0x1000, 0x80, 0);
    t.write_u8(TIMER_IO_BASE + 1, 0x20, 10, &mut sched);
    assert_eq!(counter(&t, 0, 10), 0x100A);
}

#[test]
fn a_stopped_timer_ignores_its_old_event() {
    let mut t = Timers::new();
    let mut sched = Scheduler::new();
    let mut irq = InterruptControl::new();
    start(&mut t, &mut sched, 0, 0xFFFE, 0xC0, 0);
    t.write_u8(TIMER_IO_BASE + 2, 0x00, 1, &mut sched);
    sched.advance_to(10);
    while let Some(Event::TimerOverflow { timer, at }) = sched.pop_due() {
        t.on_overflow(timer, at, &mut sched, &mut irq);
    }
    assert_eq!(counter(&t, 0, 10), 0xFFFF);
    assert_eq!(irq.read_u8(0x202), 0);
}

#[test]
fn a_timer_freezes_at_the_value_it_had() {
    let mut t = Timers::new();
    let mut s = Scheduler::new();
    t.write_u8(0x102, 0x81, 0, &mut s);
    t.write_u8(0x102, 0x00, 640, &mut s);
    assert_eq!((t.read_u8(0x100, 640), t.read_u8(0x101, 640)), (10, 0));
    assert_eq!((t.read_u8(0x100, 9999), t.read_u8(0x101, 9999)), (10, 0));
}

#[test]
fn a_new_prescaler_goes_on_from_the_value() {
    let mut t = Timers::new();
    let mut sched = Scheduler::new();
    start(&mut t, &mut sched, 0, 0xFFF0, 0x81, 0);
    t.write_u8(TIMER_IO_BASE + 2, 0x82, 640, &mut sched);
    assert_eq!(counter(&t, 0, 640), 0xFFFA);
    assert_eq!(counter(&t, 0, 640 + 255), 0xFFFA);
    assert_eq!(counter(&t, 0, 640 + 256), 0xFFFB);
    let mut irq = InterruptControl::new();
    sched.advance_to(640 + 6 * 256);
    while let Some(Event::TimerOverflow { timer, at }) = sched.pop_due() {
        t.on_overflow(timer, at, &mut sched, &mut irq);
    }
    assert_eq!(counter(&t, 0, 640 + 6 * 256), 0xFFF0);
}

#[test]
fn a_timer_keeps_its_value_into_and_out_of_cascade() {
    let mut t = Timers::new();
    let mut sched = Scheduler::new();
    start(&mut t, &mut sched, 1, 5, 0x80, 0);
    t.write_u8(TIMER_IO_BASE + 6, 0x84, 100, &mut sched);
    assert_eq!(counter(&t, 1, 100), 105);
    assert_eq!(counter(&t, 1, 5000), 105);
    t.write_u8(TIMER_IO_BASE + 6, 0x80, 5000, &mut sched);
    assert_eq!(counter(&t, 1, 5000), 105);
    assert_eq!(counter(&t, 1, 5007), 112);
}

#[test]
fn overflows_follow_each_other() {
    let mut t = Timers::new();
    let mut sched = Scheduler::new();
    let mut irq = InterruptControl::new();
    start(&mut t, &mut sched, 3, 0xFF00, 0x80, 0);
    let mut at_cycles = Vec::new();
    for _ in 0..3 {
        let next = sched.next_event_cycle().unwrap();
        sched.advance_to(next);
        while let Some(Event::TimerOverflow { timer, at }) = sched.pop_due() {
            at_cycles.push(at);
            t.on_overflow(timer, at, &mut sched, &mut irq);
        }
        assert_eq!(counter(&t, 3, next), 0xFF00);
    }
    assert_eq!(at_cycles, vec![256, 512, 768]);
}

#[test]
fn an_overflow_beyond_the_clock_never_comes() {
    let mut t = Timers::new();
    let mut sched = Scheduler::new();
    sched.advance_to(u64::MAX - 5);
    start(&mut t, &mut sched, 0, 0, 0x80, u64::MAX - 5);
    assert_eq!(sched.next_event_cycle(), None);
    assert_eq!(counter(&t, 0, u64::MAX), 5);
}
