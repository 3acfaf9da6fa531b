use gba_core::timers::TIMER_IO_BASE;
use gba_core::{Event, InterruptControl, Scheduler, Timers};

const TIMER_STRIDE: u32 = 4;
const CTRL_CASCADE: u16 = 1 << 2;
const CTRL_IRQ: u16 = 1 << 6;
const CTRL_ENABLE: u16 = 1 << 7;

fn cnt_l(i: u32) -> u32 {
    TIMER_IO_BASE + i * TIMER_STRIDE
}
fn cnt_h(i: u32) -> u32 {
    cnt_l(i) + 2
}

fn set_reload(t: &mut Timers, sched: &mut Scheduler<Event>, i: u32, reload: u16) {
    t.write_u8(cnt_l(i), reload as u8, 0, sched);
    t.write_u8(cnt_l(i) + 1, (reload >> 8) as u8, 0, sched);
}

fn set_control(t: &mut Timers, sched: &mut Scheduler<Event>, i: u32, ctrl: u16, now: u64) {
    t.write_u8(cnt_h(i), ctrl as u8, now, sched);
    t.write_u8(cnt_h(i) + 1, (ctrl >> 8) as u8, now, sched);
}

#[test]
fn handles_reconoce_el_bloque_de_timers() {
    assert!(!Timers::handles(0x0FF));
    assert!(Timers::handles(0x100));
    assert!(Timers::handles(0x10F));
    assert!(!Timers::handles(0x110));
}

#[test]
fn el_contador_avanza_segun_el_prescaler() {
    let mut t = Timers::new();
    let mut sched = Scheduler::new();
    set_reload(&mut t, &mut sched, 0, 0);
    set_control(&mut t, &mut sched, 0, CTRL_ENABLE, 0);
    assert_eq!(t.read_u8(cnt_l(0), 100), 100);
    assert_eq!(t.read_u8(cnt_l(0) + 1, 100), 0);

    let mut t = Timers::new();
    let mut sched = Scheduler::new();
    set_control(&mut t, &mut sched, 0, CTRL_ENABLE | 0b10, 0);
    assert_eq!(t.read_u8(cnt_l(0), 256), 1);
    assert_eq!(t.read_u8(cnt_l(0), 1024), 4);
}

#[test]
fn programa_el_desborde_en_el_ciclo_esperado() {
    let mut t = Timers::new();
    let mut sched = Scheduler::new();
    set_reload(&mut t, &mut sched, 0, 0xFFF0);
    set_control(&mut t, &mut sched, 0, CTRL_ENABLE | 0b01, 0);
    assert_eq!(sched.next_event_cycle(), Some(1024), "desborda en el ciclo 1024");
}

#[test]
fn al_desbordar_recarga_y_lanza_la_irq() {
    let mut t = Timers::new();
    let mut sched = Scheduler::new();
    let mut irq = InterruptControl::new();
    irq.write_u8(0x200, 0xFF);
    set_reload(&mut t, &mut sched, 0, 0xFFFE);
    set_control(&mut t, &mut sched, 0, CTRL_ENABLE | CTRL_IRQ, 0);
    assert_eq!(sched.next_event_cycle(), Some(2));

    sched.advance_to(2);
    let event = sched.pop_due().expect("hay un desborde vencido");
    let Event::TimerOverflow { timer, at } = event;
    t.on_overflow(timer, at, &mut sched, &mut irq);

    assert!(irq.raised(), "el desborde levantó la IRQ del Timer0");
    assert_eq!(t.read_u8(cnt_l(0), 2), 0xFE);
    assert_eq!(sched.next_event_cycle(), Some(4));
}

#[test]
fn dos_timers_en_cascada_cuentan_los_desbordes_del_anterior() {
    let mut t = Timers::new();
    let mut sched = Scheduler::new();
    let mut irq = InterruptControl::new();
    set_reload(&mut t, &mut sched, 0, 0xFFFF);
    set_control(&mut t, &mut sched, 0, CTRL_ENABLE, 0);
    set_reload(&mut t, &mut sched, 1, 0);
    set_control(&mut t, &mut sched, 1, CTRL_ENABLE | CTRL_CASCADE, 0);

    for ciclo in 1..=3u64 {
        sched.advance_to(ciclo);
        while let Some(Event::TimerOverflow { timer, at }) = sched.pop_due() {
            t.on_overflow(timer, at, &mut sched, &mut irq);
        }
    }
    assert_eq!(t.read_u8(cnt_l(1), 3), 3, "TM1 cuenta los desbordes de TM0");
}

#[test]
fn deshabilitar_congela_el_contador() {
    let mut t = Timers::new();
    let mut sched = Scheduler::new();
    set_control(&mut t, &mut sched, 0, CTRL_ENABLE, 0);
    set_control(&mut t, &mut sched, 0, 0, 50);
    assert_eq!(t.read_u8(cnt_l(0), 999), 50, "parado, el contador no avanza");
}

#[test]
fn can_wake_distingue_un_timer_con_irq_habilitada() {
    let mut t = Timers::new();
    let mut sched = Scheduler::new();
    let mut irq = InterruptControl::new();
    set_control(&mut t, &mut sched, 0, CTRL_ENABLE | CTRL_IRQ, 0);
    assert!(!t.can_wake(&irq));
    irq.write_u8(0x200, 0x08);
    assert!(t.can_wake(&irq));
}
