use gba_core::Scheduler;

#[test]
fn un_scheduler_nuevo_esta_vacio_y_a_cero() {
    let sched: Scheduler<&str> = Scheduler::new();
    assert_eq!(sched.now(), 0);
    assert!(sched.is_empty());
    assert_eq!(sched.len(), 0);
    assert_eq!(sched.next_event_cycle(), None);
}

#[test]
fn evento_ficticio_se_dispara_exactamente_al_llegar_a_su_ciclo() {
    let mut sched: Scheduler<&str> = Scheduler::new();
    sched.schedule_in(100, "ficticio");
    assert_eq!(sched.next_event_cycle(), Some(100));

    sched.advance(99);
    assert_eq!(sched.now(), 99);
    assert_eq!(sched.pop_due(), None, "a 99 ciclos todavía no toca");

    sched.advance(1);
    assert_eq!(sched.now(), 100);
    assert_eq!(sched.pop_due(), Some("ficticio"), "a 100 ciclos se dispara");

    assert_eq!(sched.pop_due(), None);
    assert!(sched.is_empty());
}

#[test]
fn nada_vence_antes_de_su_ciclo() {
    let mut sched: Scheduler<u32> = Scheduler::new();
    sched.schedule_in(50, 7);
    assert_eq!(sched.pop_due(), None);
    assert_eq!(sched.len(), 1);
}

#[test]
fn los_eventos_salen_en_orden_de_ciclo_creciente() {
    let mut sched: Scheduler<&str> = Scheduler::new();
    sched.schedule_at(300, "tres");
    sched.schedule_at(100, "uno");
    sched.schedule_at(200, "dos");

    assert_eq!(sched.next_event_cycle(), Some(100));

    sched.advance_to(1000);
    assert_eq!(sched.pop_due(), Some("uno"));
    assert_eq!(sched.pop_due(), Some("dos"));
    assert_eq!(sched.pop_due(), Some("tres"));
    assert_eq!(sched.pop_due(), None);
}

#[test]
fn desempate_fifo_a_igual_ciclo() {
    let mut sched: Scheduler<&str> = Scheduler::new();
    sched.schedule_at(100, "a");
    sched.schedule_at(100, "b");
    sched.schedule_at(50, "previo");
    sched.schedule_at(100, "c");

    sched.advance_to(100);
    assert_eq!(sched.pop_due(), Some("previo"), "primero el de ciclo menor");
    assert_eq!(sched.pop_due(), Some("a"), "luego, FIFO: a, b, c");
    assert_eq!(sched.pop_due(), Some("b"));
    assert_eq!(sched.pop_due(), Some("c"));
    assert_eq!(sched.pop_due(), None);
}

#[test]
fn schedule_in_es_relativo_al_now_actual() {
    let mut sched: Scheduler<&str> = Scheduler::new();
    sched.advance(40);
    sched.schedule_in(10, "relativo");
    assert_eq!(sched.next_event_cycle(), Some(50));

    sched.advance(9);
    assert_eq!(sched.pop_due(), None);
    sched.advance(1);
    assert_eq!(sched.pop_due(), Some("relativo"));
}

#[test]
fn un_evento_en_el_pasado_vence_de_inmediato() {
    let mut sched: Scheduler<&str> = Scheduler::new();
    sched.advance(100);
    sched.schedule_at(30, "tarde");
    assert_eq!(sched.pop_due(), Some("tarde"));
}

#[test]
fn schedule_in_cero_vence_en_el_ciclo_actual() {
    let mut sched: Scheduler<&str> = Scheduler::new();
    sched.advance(10);
    sched.schedule_in(0, "ya");
    assert_eq!(sched.pop_due(), Some("ya"));
}

#[test]
fn pop_due_drena_solo_los_vencidos_y_conserva_los_futuros() {
    let mut sched: Scheduler<&str> = Scheduler::new();
    sched.schedule_at(10, "pronto");
    sched.schedule_at(20, "medio");
    sched.schedule_at(100, "lejos");

    sched.advance_to(50);
    assert_eq!(sched.pop_due(), Some("pronto"));
    assert_eq!(sched.pop_due(), Some("medio"));
    assert_eq!(sched.pop_due(), None, "el de ciclo 100 aún es futuro");
    assert_eq!(sched.len(), 1);
    assert_eq!(sched.next_event_cycle(), Some(100));

    sched.advance_to(100);
    assert_eq!(sched.pop_due(), Some("lejos"));
    assert!(sched.is_empty());
}

#[test]
fn un_evento_puede_reprogramar_otro_el_patron_de_los_timers() {
    let mut sched: Scheduler<&str> = Scheduler::new();
    const PERIODO: u64 = 1232;
    sched.schedule_in(PERIODO, "tick");

    let mut disparos = 0;
    for _ in 0..5 {
        sched.advance(PERIODO);
        while let Some(evento) = sched.pop_due() {
            assert_eq!(evento, "tick");
            disparos += 1;
            sched.schedule_in(PERIODO, "tick");
        }
    }
    assert_eq!(disparos, 5);
    assert_eq!(sched.now(), 5 * PERIODO);
    assert_eq!(sched.next_event_cycle(), Some(6 * PERIODO));
}
