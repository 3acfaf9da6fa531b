//! The four hardware timers.
//!
//! A timer is a 16-bit counter that goes up and, when it passes `0xFFFF`,
//! overflows: it takes its reload value and may request an interrupt. It counts
//! the processor's cycles through a prescaler or, in cascade, the overflows of
//! the timer before it.
//!
//! No counter is kept up to date cycle by cycle. The moment of the next
//! overflow is computed and scheduled, and the value in between follows from
//! the time elapsed. The clock has 64 bits: an overflow whose cycle does not
//! fit never comes, so it is not scheduled.

use vstd::prelude::*;

use crate::bits::bit16;
use crate::bus::Event;
use crate::interrupt::{Interrupt, InterruptControl, IrqState};
use crate::scheduler::{Scheduler, SchedulerState};

verus! {

/// Number of timers.
pub const NUM_TIMERS: usize = 4;

/// I/O offset of the first timer register.
pub const TIMER_IO_BASE: u32 = 0x100;

/// End (exclusive) of the timer registers.
pub const TIMER_IO_END: u32 = 0x110;

/// One timer.
#[derive(Debug, Clone, Copy, PartialEq, Eq, Structural)]
pub struct Timer {
    /// Value taken on start and on overflow.
    pub reload: u16,
    /// Control register.
    pub control: u16,
    /// The counter as it was in cycle `anchor`; for a timer that is stopped or
    /// in cascade, the counter as it is.
    pub counter: u16,
    /// Cycle from which the prescaler counts.
    pub anchor: u64,
    /// Whether the timer is on.
    pub running: bool,
    /// Cycle of the scheduled overflow. An event for any other cycle is stale.
    pub overflow_at: Option<u64>,
}

impl Timer {
    /// A stopped timer at zero.
    #[verifier::allow_in_spec]
    pub fn new() -> Timer
        returns
            (Timer {
                reload: 0,
                control: 0,
                counter: 0,
                anchor: 0,
                running: false,
                overflow_at: None,
            }),
    {
        Timer {
            reload: 0,
            control: 0,
            counter: 0,
            anchor: 0,
            running: false,
            overflow_at: None,
        }
    }

    /// Cycles per count.
    #[verifier::allow_in_spec]
    pub fn prescaler(&self) -> u64
        returns
            (if self.control % 4 == 0 {
                1u64
            } else if self.control % 4 == 1 {
                64u64
            } else if self.control % 4 == 2 {
                256u64
            } else {
                1024u64
            }),
    {
        match self.control % 4 {
            0 => 1,
            1 => 64,
            2 => 256,
            _ => 1024,
        }
    }
}

/// Whether timer `i` counts the overflows of the timer before it.
pub open spec fn in_cascade(timers: Seq<Timer>, i: int) -> bool {
    i > 0 && bit16(timers[i].control, 2)
}

/// The counter of timer `i` in cycle `now`.
pub open spec fn counter_at(timers: Seq<Timer>, i: int, now: u64) -> u16 {
    let t = timers[i];
    if !t.running || in_cascade(timers, i) {
        t.counter
    } else {
        let elapsed = if now >= t.anchor {
            (now - t.anchor) as u64
        } else {
            0u64
        };
        ((t.counter + elapsed / t.prescaler()) % 0x1_0000) as u16
    }
}

/// The byte at I/O offset `off` in cycle `now`.
pub open spec fn read_byte(timers: Seq<Timer>, off: u32, now: u64) -> u8 {
    let i = (off - TIMER_IO_BASE) / 4;
    let k = (off - TIMER_IO_BASE) % 4;
    if k == 0 {
        (counter_at(timers, i, now) % 0x100) as u8
    } else if k == 1 {
        (counter_at(timers, i, now) / 0x100) as u8
    } else if k == 2 {
        (timers[i].control % 0x100) as u8
    } else {
        (timers[i].control / 0x100) as u8
    }
}

/// Whether timer `i` is on, requests interrupts, and these are enabled.
pub open spec fn wakes(timers: Seq<Timer>, irq: IrqState, i: int) -> bool {
    timers[i].running && bit16(timers[i].control, 6) && irq.is_enabled(Interrupt::timer(i as usize))
}

/// Whether some timer that is on could wake a halted processor.
pub open spec fn some_wakes(timers: Seq<Timer>, irq: IrqState) -> bool {
    exists|i: int| 0 <= i < NUM_TIMERS && #[trigger] wakes(timers, irq, i)
}

/// The timers together with the event queue that drives them.
#[verifier::ext_equal]
pub struct TimerBoard {
    /// The four timers.
    pub timers: Seq<Timer>,
    /// The event queue.
    pub sched: SchedulerState<Event>,
}

impl TimerBoard {
    /// With timer `i` replaced.
    pub open spec fn with(self, i: int, timer: Timer) -> TimerBoard {
        TimerBoard { timers: self.timers.update(i, timer), ..self }
    }

    /// The cycle in which timer `i` overflows, counted from `now`.
    pub open spec fn overflow_cycle(self, i: int, now: u64) -> int {
        now + (0x1_0000 - counter_at(self.timers, i, now)) * self.timers[i].prescaler()
    }

    /// With the next overflow of timer `i` scheduled. A timer in cascade has
    /// none of its own.
    pub open spec fn armed(self, i: int, now: u64) -> TimerBoard {
        let at = self.overflow_cycle(i, now);
        if in_cascade(self.timers, i) || at > u64::MAX {
            self.with(i, Timer { overflow_at: None, ..self.timers[i] })
        } else {
            TimerBoard {
                timers: self.timers.update(
                    i,
                    Timer { overflow_at: Some(at as u64), ..self.timers[i] },
                ),
                sched: self.sched.schedule_at(
                    at as u64,
                    Event::TimerOverflow { timer: i as usize, at: at as u64 },
                ),
            }
        }
    }

    /// With timer `i` loaded and switched on.
    pub open spec fn started(self, i: int, now: u64) -> TimerBoard {
        let t = self.timers[i];
        self.with(i, Timer { counter: t.reload, anchor: now, running: true, ..t }).armed(i, now)
    }

    /// With timer `i` frozen at its value.
    pub open spec fn stopped(self, i: int, now: u64) -> TimerBoard {
        self.with(
            i,
            Timer {
                counter: counter_at(self.timers, i, now),
                running: false,
                overflow_at: None,
                ..self.timers[i]
            },
        )
    }

    /// With the low control byte of timer `i` set to `value`. A rise of the
    /// enable bit starts the timer. Otherwise the time elapsed so far counts
    /// under the old settings: a fall of the enable bit freezes the counter at
    /// its value, and a timer that stays on goes on from its value under the
    /// new settings.
    pub open spec fn write_control(self, i: int, value: u8, now: u64) -> TimerBoard {
        let t = self.timers[i];
        let control = (t.control / 0x100 * 0x100 + value) as u16;
        let enabled = value >= 0x80;
        if enabled && !t.running {
            self.with(i, Timer { control, ..t }).started(i, now)
        } else if !enabled && t.running {
            let held = self.stopped(i, now);
            held.with(i, Timer { control, ..held.timers[i] })
        } else if enabled {
            self.with(
                i,
                Timer { control, counter: counter_at(self.timers, i, now), anchor: now, ..t },
            ).armed(i, now)
        } else {
            self.with(i, Timer { control, ..t })
        }
    }

    /// After writing `value` at I/O offset `off` in cycle `now`.
    pub open spec fn write8(self, off: u32, value: u8, now: u64) -> TimerBoard {
        let i = (off - TIMER_IO_BASE) / 4;
        let k = (off - TIMER_IO_BASE) % 4;
        let t = self.timers[i];
        if k == 0 {
            self.with(i, Timer { reload: (t.reload / 0x100 * 0x100 + value) as u16, ..t })
        } else if k == 1 {
            self.with(i, Timer { reload: (t.reload % 0x100 + value * 0x100) as u16, ..t })
        } else if k == 2 {
            self.write_control(i, value, now)
        } else {
            self
        }
    }

    /// Timer `i` overflows in cycle `now`: it reloads, requests its interrupt
    /// if asked to, schedules the next overflow, and counts the next timer up
    /// if that one is on and in cascade.
    pub open spec fn overflow(self, irq: IrqState, i: int, now: u64) -> (TimerBoard, IrqState)
        decreases 2 * (NUM_TIMERS - i),
    {
        let t = self.timers[i];
        let board = self.with(i, Timer { counter: t.reload, anchor: now, ..t }).armed(i, now);
        let requested = if bit16(t.control, 6) {
            irq.request(Interrupt::timer(i as usize))
        } else {
            irq
        };
        if 0 <= i && i + 1 < NUM_TIMERS && board.timers[i + 1].running && in_cascade(board.timers, i + 1) {
            board.count_up(requested, i + 1, now)
        } else {
            (board, requested)
        }
    }

    /// Timer `i`, which is in cascade, counts one up, and overflows if it was
    /// at its end.
    pub open spec fn count_up(self, irq: IrqState, i: int, now: u64) -> (TimerBoard, IrqState)
        decreases 2 * (NUM_TIMERS - i) + 1,
    {
        let t = self.timers[i];
        if i < NUM_TIMERS && t.counter == 0xFFFF {
            self.with(i, Timer { counter: 0, ..t }).overflow(irq, i, now)
        } else {
            (self.with(i, Timer { counter: (t.counter + 1) as u16, ..t }), irq)
        }
    }

    /// The event for timer `i` and cycle `at` is delivered; a stale one has no
    /// effect.
    pub open spec fn on_overflow(self, irq: IrqState, i: int, at: u64) -> (TimerBoard, IrqState) {
        if 0 <= i < NUM_TIMERS && self.timers[i].overflow_at == Some(at) {
            self.overflow(irq, i, at)
        } else {
            (self, irq)
        }
    }

    /// Four timers, and every pending event names one of them and carries the
    /// cycle it is scheduled for.
    pub open spec fn wf(self) -> bool {
        &&& self.timers.len() == NUM_TIMERS
        &&& self.sched.wf()
        &&& forall|k: int|
            #![trigger self.sched.queue[k]]
            0 <= k < self.sched.queue.len() ==> (self.sched.queue[k].1 matches
                Event::TimerOverflow { timer, at } && timer < NUM_TIMERS && at
                == self.sched.queue[k].0)
    }
}

/// The four timers.
pub struct Timers {
    timers: [Timer; 4],
}

impl View for Timers {
    type V = Seq<Timer>;

    closed spec fn view(&self) -> Seq<Timer> {
        self.timers@
    }
}

/// The state that the timers and the queue make up.
pub open spec fn board(timers: Seq<Timer>, sched: SchedulerState<Event>) -> TimerBoard {
    TimerBoard { timers, sched }
}

impl Timers {
    /// Four stopped timers at zero.
    pub fn new() -> (r: Self)
        ensures
            r@ == Seq::new(NUM_TIMERS as nat, |i: int| Timer::new()),
    {
        let r = Timers { timers: [Timer::new(), Timer::new(), Timer::new(), Timer::new()] };
        assert(r@ =~= Seq::new(NUM_TIMERS as nat, |i: int| Timer::new()));
        r
    }

    /// Whether the I/O offset belongs to a timer register.
    #[verifier::allow_in_spec]
    pub fn handles(io_off: u32) -> bool
        returns
            TIMER_IO_BASE <= io_off && io_off < TIMER_IO_END,
    {
        TIMER_IO_BASE <= io_off && io_off < TIMER_IO_END
    }

    /// Reads a byte in cycle `now`; the counter of a running timer follows from
    /// the time elapsed.
    pub fn read_u8(&self, io_off: u32, now: u64) -> (r: u8)
        requires
            Timers::handles(io_off),
        ensures
            r == read_byte(self@, io_off, now),
    {
        let i: usize = ((io_off - TIMER_IO_BASE) / 4) as usize;
        let r: u8 = match (io_off - TIMER_IO_BASE) % 4 {
            0 => (self.current_counter(i, now) % 0x100) as u8,
            1 => (self.current_counter(i, now) / 0x100) as u8,
            2 => (self.timers[i].control % 0x100) as u8,
            _ => (self.timers[i].control / 0x100) as u8,
        };
        r
    }

    /// Writes a byte in cycle `now`. The low control byte starts, stops or
    /// changes the timer, which schedules its overflow anew.
    pub fn write_u8(
        &mut self,
        io_off: u32,
        value: u8,
        now: u64,
        scheduler: &mut Scheduler<Event>,
    )
        requires
            Timers::handles(io_off),
        ensures
            board(final(self)@, final(scheduler)@) == board(old(self)@, old(scheduler)@).write8(
                io_off,
                value,
                now,
            ),
            board(old(self)@, old(scheduler)@).wf() ==> board(
                final(self)@,
                final(scheduler)@,
            ).wf(),
    {
        let i: usize = ((io_off - TIMER_IO_BASE) / 4) as usize;
        let mut t: Timer = self.timers[i];
        match (io_off - TIMER_IO_BASE) % 4 {
            0 => {
                t.reload = t.reload / 0x100 * 0x100 + value as u16;
                self.timers[i] = t;
            },
            1 => {
                t.reload = t.reload % 0x100 + value as u16 * 0x100;
                self.timers[i] = t;
            },
            2 => self.write_control_low(i, value, now, scheduler),
            _ => {},
        }
    }

    /// Handles the overflow that the queue delivered for timer `i` and cycle
    /// `at`. A stale one, from before the timer was changed, has no effect.
    pub fn on_overflow(
        &mut self,
        i: usize,
        at: u64,
        scheduler: &mut Scheduler<Event>,
        irq: &mut InterruptControl,
    )
        ensures
            (board(final(self)@, final(scheduler)@), final(irq)@) == board(
                old(self)@,
                old(scheduler)@,
            ).on_overflow(old(irq)@, i as int, at),
            board(old(self)@, old(scheduler)@).wf() ==> board(
                final(self)@,
                final(scheduler)@,
            ).wf(),
    {
        if i < NUM_TIMERS {
            match self.timers[i].overflow_at {
                Some(expected) => {
                    if expected == at {
                        self.do_overflow(i, at, scheduler, irq);
                    }
                },
                None => {},
            }
        }
    }

    /// Whether some timer that is on could wake a halted processor: it requests
    /// interrupts and these are enabled.
    pub fn can_wake(&self, irq: &InterruptControl) -> (r: bool)
        ensures
            r == some_wakes(self@, irq@),
    {
        let mut i: usize = 0;
        while i < NUM_TIMERS
            invariant
                i <= NUM_TIMERS,
                forall|k: int| 0 <= k < i ==> !(#[trigger] wakes(self@, irq@, k)),
            decreases NUM_TIMERS - i,
        {
            let t: Timer = self.timers[i];
            if t.running && bit16(t.control, 6) && irq.is_enabled(Interrupt::timer(i)) {
                assert(wakes(self@, irq@, i as int));
                return true;
            }
            i = i + 1;
        }
        false
    }

    fn is_cascade(&self, i: usize) -> (r: bool)
        requires
            i < NUM_TIMERS,
        ensures
            r == in_cascade(self@, i as int),
    {
        i > 0 && bit16(self.timers[i].control, 2)
    }

    fn current_counter(&self, i: usize, now: u64) -> (r: u16)
        requires
            i < NUM_TIMERS,
        ensures
            r == counter_at(self@, i as int, now),
    {
        let t: Timer = self.timers[i];
        if !t.running || self.is_cascade(i) {
            t.counter
        } else {
            let elapsed: u64 = if now >= t.anchor {
                now - t.anchor
            } else {
                0
            };
            let ticks: u64 = elapsed / t.prescaler();
            ((t.counter as u64 + ticks % 0x1_0000) % 0x1_0000) as u16
        }
    }

    fn write_control_low(
        &mut self,
        i: usize,
        value: u8,
        now: u64,
        scheduler: &mut Scheduler<Event>,
    )
        requires
            i < NUM_TIMERS,
        ensures
            board(final(self)@, final(scheduler)@) == board(
                old(self)@,
                old(scheduler)@,
            ).write_control(i as int, value, now),
            board(old(self)@, old(scheduler)@).wf() ==> board(
                final(self)@,
                final(scheduler)@,
            ).wf(),
    {
        let was_enabled: bool = self.timers[i].running;
        let now_enabled: bool = value >= 0x80;
        let control: u16 = self.timers[i].control / 0x100 * 0x100 + value as u16;
        if now_enabled && !was_enabled {
            let mut t: Timer = self.timers[i];
            t.control = control;
            self.timers[i] = t;
            self.start(i, now, scheduler);
        } else if !now_enabled && was_enabled {
            self.stop(i, now);
            assert(board(self@, scheduler@) == board(old(self)@, old(scheduler)@).stopped(
                i as int,
                now,
            ));
            let mut t: Timer = self.timers[i];
            t.control = control;
            self.timers[i] = t;
        } else if now_enabled {
            let counter: u16 = self.current_counter(i, now);
            let mut t: Timer = self.timers[i];
            t.control = control;
            t.counter = counter;
            t.anchor = now;
            self.timers[i] = t;
            self.arm_overflow(i, now, scheduler);
        } else {
            let mut t: Timer = self.timers[i];
            t.control = control;
            self.timers[i] = t;
        }
    }

    fn start(&mut self, i: usize, now: u64, scheduler: &mut Scheduler<Event>)
        requires
            i < NUM_TIMERS,
        ensures
            board(final(self)@, final(scheduler)@) == board(old(self)@, old(scheduler)@).started(
                i as int,
                now,
            ),
            board(old(self)@, old(scheduler)@).wf() ==> board(
                final(self)@,
                final(scheduler)@,
            ).wf(),
    {
        let mut t: Timer = self.timers[i];
        t.counter = t.reload;
        t.anchor = now;
        t.running = true;
        self.timers[i] = t;
        self.arm_overflow(i, now, scheduler);
    }

    fn stop(&mut self, i: usize, now: u64)
        requires
            i < NUM_TIMERS,
        ensures
            forall|sched: SchedulerState<Event>| #[trigger]
                board(final(self)@, sched) == board(old(self)@, sched).stopped(i as int, now),
    {
        let counter: u16 = self.current_counter(i, now);
        let mut t: Timer = self.timers[i];
        t.counter = counter;
        t.running = false;
        t.overflow_at = None;
        self.timers[i] = t;
    }

    fn arm_overflow(&mut self, i: usize, now: u64, scheduler: &mut Scheduler<Event>)
        requires
            i < NUM_TIMERS,
        ensures
            board(final(self)@, final(scheduler)@) == board(old(self)@, old(scheduler)@).armed(
                i as int,
                now,
            ),
            board(old(self)@, old(scheduler)@).wf() ==> board(
                final(self)@,
                final(scheduler)@,
            ).wf(),
    {
        let ghost before = board(self@, scheduler@);
        let cascade: bool = self.is_cascade(i);
        let counter: u16 = self.current_counter(i, now);
        let mut t: Timer = self.timers[i];
        let prescaler: u64 = t.prescaler();
        let ticks: u64 = 0x1_0000 - counter as u64;
        assert(1 <= ticks * prescaler <= 0x400_0000) by (nonlinear_arith)
            requires
                1 <= ticks <= 0x1_0000,
                1 <= prescaler <= 1024,
        ;
        let wait: u64 = ticks * prescaler;
        if cascade || now > u64::MAX - wait {
            t.overflow_at = None;
            self.timers[i] = t;
        } else {
            let at: u64 = now + wait;
            t.overflow_at = Some(at);
            self.timers[i] = t;
            let event: Event = Event::TimerOverflow { timer: i, at };
            proof {
                if before.wf() {
                    lemma_schedule_keeps_events(before, at, i);
                }
            }
            scheduler.schedule_at(at, event);
        }
    }

    fn do_overflow(
        &mut self,
        i: usize,
        now: u64,
        scheduler: &mut Scheduler<Event>,
        irq: &mut InterruptControl,
    )
        requires
            i < NUM_TIMERS,
        ensures
            (board(final(self)@, final(scheduler)@), final(irq)@) == board(
                old(self)@,
                old(scheduler)@,
            ).overflow(old(irq)@, i as int, now),
            board(old(self)@, old(scheduler)@).wf() ==> board(
                final(self)@,
                final(scheduler)@,
            ).wf(),
        decreases 2 * (NUM_TIMERS - i),
    {
        let mut t: Timer = self.timers[i];
        t.counter = t.reload;
        t.anchor = now;
        self.timers[i] = t;
        if bit16(t.control, 6) {
            irq.request(Interrupt::timer(i));
        }
        self.arm_overflow(i, now, scheduler);
        let next: usize = i + 1;
        if next < NUM_TIMERS && self.timers[next].running {
            let cascade: bool = self.is_cascade(next);
            if cascade {
                self.cascade_increment(next, now, scheduler, irq);
            }
        }
    }

    fn cascade_increment(
        &mut self,
        i: usize,
        now: u64,
        scheduler: &mut Scheduler<Event>,
        irq: &mut InterruptControl,
    )
        requires
            i < NUM_TIMERS,
        ensures
            (board(final(self)@, final(scheduler)@), final(irq)@) == board(
                old(self)@,
                old(scheduler)@,
            ).count_up(old(irq)@, i as int, now),
            board(old(self)@, old(scheduler)@).wf() ==> board(
                final(self)@,
                final(scheduler)@,
            ).wf(),
        decreases 2 * (NUM_TIMERS - i) + 1,
    {
        let mut t: Timer = self.timers[i];
        if t.counter == 0xFFFF {
            t.counter = 0;
            self.timers[i] = t;
            self.do_overflow(i, now, scheduler, irq);
        } else {
            t.counter = t.counter + 1;
            self.timers[i] = t;
        }
    }
}

impl Default for Timers {
    fn default() -> (r: Self)
        ensures
            r@ == Seq::new(NUM_TIMERS as nat, |i: int| Timer::new()),
    {
        Timers::new()
    }
}

/// There are always four timers.
pub proof fn law_timers_sizes(timers: &Timers)
    ensures
        timers@.len() == NUM_TIMERS,
{
}

/// Scheduling an overflow keeps the queue well formed.
proof fn lemma_schedule_keeps_events(b: TimerBoard, at: u64, i: usize)
    requires
        b.wf(),
        i < NUM_TIMERS,
    ensures
        ({
            let after = b.sched.schedule_at(at, Event::TimerOverflow { timer: i, at });
            board(b.timers, after).wf()
        }),
{
    let event = Event::TimerOverflow { timer: i, at };
    let after = b.sched.schedule_at(at, event);
    crate::scheduler::law_schedule_keeps_order(b.sched, at, event);
    crate::scheduler::law_slot(b.sched.queue, at, 0);
    let slot = crate::scheduler::slot_from(b.sched.queue, at, 0);
    assert forall|k: int| #![trigger after.queue[k]] 0 <= k < after.queue.len() implies (
    after.queue[k].1 matches Event::TimerOverflow { timer, at } && timer < NUM_TIMERS && at
        == after.queue[k].0) by {
        if k < slot {
            assert(after.queue[k] == b.sched.queue[k]);
        } else if k > slot {
            assert(after.queue[k] == b.sched.queue[k - 1]);
        }
    }
}

/// Starting a timer loads its counter and, unless it is in cascade, makes it
/// overflow `(0x10000 - reload)` counts later: that cycle is the one it expects
/// and an event for it is pending.
pub proof fn law_start(b: TimerBoard, i: int, now: u64)
    requires
        b.wf(),
        0 <= i < NUM_TIMERS,
    ensures
        ({
            let after = b.started(i, now);
            let t = b.timers[i];
            let at = now + (0x1_0000 - t.reload) * t.prescaler();
            &&& after.timers[i].running
            &&& counter_at(after.timers, i, now) == t.reload
            &&& !in_cascade(b.timers, i) && at <= u64::MAX ==> {
                &&& after.timers[i].overflow_at == Some(at as u64)
                &&& after.sched.queue.contains(
                    (at as u64, Event::TimerOverflow { timer: i as usize, at: at as u64 }),
                )
            }
            &&& in_cascade(b.timers, i) ==> after.timers[i].overflow_at is None && after.sched
                == b.sched
        }),
{
    let t = b.timers[i];
    let loaded = b.with(i, Timer { counter: t.reload, anchor: now, running: true, ..t });
    assert(0u64 / t.prescaler() == 0);
    assert(counter_at(loaded.timers, i, now) == t.reload);
    let at = loaded.overflow_cycle(i, now);
    if !in_cascade(b.timers, i) && at <= u64::MAX {
        let entry = (at as u64, Event::TimerOverflow { timer: i as usize, at: at as u64 });
        let slot = crate::scheduler::slot_from(b.sched.queue, at as u64, 0);
        crate::scheduler::law_slot(b.sched.queue, at as u64, 0);
        assert(b.started(i, now).sched.queue[slot] == entry);
    }
}

/// Between overflows the counter of a timer that counts cycles goes up by one
/// every prescaler period.
pub proof fn law_counter_follows_time(timers: Seq<Timer>, i: int, counts: u64, rest: u64, now: u64)
    requires
        0 <= i < timers.len(),
        timers[i].running,
        !in_cascade(timers, i),
        counts <= 0xFFFF - timers[i].counter,
        rest < timers[i].prescaler(),
        now == timers[i].anchor + counts * timers[i].prescaler() + rest,
    ensures
        counter_at(timers, i, now) == timers[i].counter + counts,
{
    let p = timers[i].prescaler() as int;
    let elapsed = (now - timers[i].anchor) as int;
    assert(0 <= counts * p) by (nonlinear_arith)
        requires
            p > 0,
            counts >= 0,
    ;
    assert(elapsed / p == counts) by (nonlinear_arith)
        requires
            elapsed == counts * p + rest,
            0 <= rest < p,
    ;
}

/// Switching a timer off freezes its counter: whatever the new settings are, any
/// later read sees the value of the moment it was switched off. No overflow of
/// it is expected any more, and the other timers stay as they are.
pub proof fn law_stop_freezes(b: TimerBoard, off: u32, value: u8, now: u64, later: u64)
    requires
        b.wf(),
        Timers::handles(off),
        (off - TIMER_IO_BASE) % 4 == 2,
        b.timers[(off - TIMER_IO_BASE) / 4].running,
        value < 0x80,
    ensures
        ({
            let i = (off - TIMER_IO_BASE) / 4;
            let after = b.write8(off, value, now);
            &&& counter_at(after.timers, i, later) == counter_at(b.timers, i, now)
            &&& !after.timers[i].running
            &&& after.timers[i].overflow_at is None
            &&& forall|k: int|
                0 <= k < NUM_TIMERS && k != i ==> #[trigger] after.timers[k] == b.timers[k]
        }),
{
}

/// A timer that stays on keeps its value when its settings change, and the rest
/// of its way to the overflow is counted with the new prescaler. The other
/// timers stay as they are.
pub proof fn law_new_settings_keep_the_counter(b: TimerBoard, off: u32, value: u8, now: u64)
    requires
        b.wf(),
        Timers::handles(off),
        (off - TIMER_IO_BASE) % 4 == 2,
        b.timers[(off - TIMER_IO_BASE) / 4].running,
        value >= 0x80,
    ensures
        ({
            let i = (off - TIMER_IO_BASE) / 4;
            let after = b.write8(off, value, now);
            let counter = counter_at(b.timers, i, now);
            let at = now + (0x1_0000 - counter) * after.timers[i].prescaler();
            &&& counter_at(after.timers, i, now) == counter
            &&& after.timers[i].running
            &&& after.timers[i].control % 0x100 == value
            &&& in_cascade(after.timers, i) ==> after.timers[i].overflow_at is None
            &&& !in_cascade(after.timers, i) && at <= u64::MAX ==> after.timers[i].overflow_at
                == Some(at as u64)
            &&& forall|k: int|
                0 <= k < NUM_TIMERS && k != i ==> #[trigger] after.timers[k] == b.timers[k]
        }),
{
    let i = (off - TIMER_IO_BASE) / 4;
    let after = b.write8(off, value, now);
    assert(0u64 / after.timers[i].prescaler() == 0);
}

/// The write of a reload value does not disturb the counter.
pub proof fn law_reload_is_not_the_counter(b: TimerBoard, off: u32, value: u8, now: u64, later: u64)
    requires
        b.wf(),
        Timers::handles(off),
        (off - TIMER_IO_BASE) % 4 < 2,
    ensures
        ({
            let i = (off - TIMER_IO_BASE) / 4;
            counter_at(b.write8(off, value, now).timers, i, later) == counter_at(
                b.timers,
                i,
                later,
            )
        }),
{
}

/// A stale event, whose cycle is not the one that the timer expects, changes
/// nothing.
pub proof fn law_stale_event_is_ignored(b: TimerBoard, irq: IrqState, i: int, at: u64)
    requires
        b.wf(),
        0 <= i < NUM_TIMERS,
        b.timers[i].overflow_at != Some(at),
    ensures
        b.on_overflow(irq, i, at) == (b, irq),
{
}

/// A timer in cascade schedules nothing, and neither do the timers that it
/// counts up.
proof fn lemma_cascade_schedules_nothing(b: TimerBoard, irq: IrqState, i: int, now: u64)
    requires
        b.timers.len() == NUM_TIMERS,
        0 < i < NUM_TIMERS,
        in_cascade(b.timers, i),
    ensures
        b.overflow(irq, i, now).0.sched == b.sched,
        b.count_up(irq, i, now).0.sched == b.sched,
        b.overflow(irq, i, now).0.timers.len() == NUM_TIMERS,
        b.count_up(irq, i, now).0.timers.len() == NUM_TIMERS,
    decreases NUM_TIMERS - i,
{
    reveal_with_fuel(TimerBoard::overflow, 2);
    reveal_with_fuel(TimerBoard::count_up, 2);
    let t = b.timers[i];
    let wrapped = b.with(i, Timer { counter: 0, ..t });
    let x = b.with(i, Timer { counter: t.reload, anchor: now, ..t }).armed(i, now);
    let y = wrapped.with(
        i,
        Timer { counter: t.reload, anchor: now, ..wrapped.timers[i] },
    ).armed(i, now);
    assert(x == y);
    if i + 1 < NUM_TIMERS && x.timers[i + 1].running && in_cascade(x.timers, i + 1) {
        let requested = if bit16(t.control, 6) {
            irq.request(Interrupt::timer(i as usize))
        } else {
            irq
        };
        lemma_cascade_schedules_nothing(x, requested, i + 1, now);
    }
}

/// An overflow schedules at most one event, and that one is strictly later.
pub proof fn law_overflow_schedules_later(b: TimerBoard, irq: IrqState, i: int, now: u64)
    requires
        b.wf(),
        0 <= i < NUM_TIMERS,
    ensures
        ({
            let after = b.on_overflow(irq, i, now).0.sched;
            after == b.sched || exists|when: u64, event: Event|
                when > now && after == #[trigger] b.sched.schedule_at(when, event)
        }),
{
    let t = b.timers[i];
    let loaded = b.with(i, Timer { counter: t.reload, anchor: now, ..t });
    let board = loaded.armed(i, now);
    let requested = if bit16(t.control, 6) {
        irq.request(Interrupt::timer(i as usize))
    } else {
        irq
    };
    if i + 1 < NUM_TIMERS && board.timers[i + 1].running && in_cascade(board.timers, i + 1) {
        lemma_cascade_schedules_nothing(board, requested, i + 1, now);
    }
    assert(b.overflow(irq, i, now).0.sched == board.sched);
    let ticks = 0x1_0000 - counter_at(loaded.timers, i, now);
    let p = loaded.timers[i].prescaler() as int;
    assert(ticks * p >= 1) by (nonlinear_arith)
        requires
            ticks >= 1,
            p >= 1,
    ;
    let at = loaded.overflow_cycle(i, now);
    if !in_cascade(loaded.timers, i) && at <= u64::MAX {
        let event = Event::TimerOverflow { timer: i as usize, at: at as u64 };
        assert(board.sched == b.sched.schedule_at(at as u64, event));
    }
}

/// A delivered overflow reloads the timer, requests its interrupt exactly when
/// bit 6 of its control asks for one, and comes again one period later.
pub proof fn law_overflow_reloads(b: TimerBoard, irq: IrqState, i: int, at: u64)
    requires
        b.wf(),
        i == NUM_TIMERS - 1 || (0 <= i < NUM_TIMERS && !(b.timers[i + 1].running && in_cascade(
            b.timers,
            i + 1,
        ))),
        b.timers[i].overflow_at == Some(at),
        b.timers[i].running,
        !in_cascade(b.timers, i),
    ensures
        ({
            let (after, after_irq) = b.on_overflow(irq, i, at);
            let t = b.timers[i];
            let next = at + (0x1_0000 - t.reload) * t.prescaler();
            &&& counter_at(after.timers, i, at) == t.reload
            &&& next <= u64::MAX ==> after.timers[i].overflow_at == Some(next as u64)
            &&& bit16(t.control, 6) ==> after_irq == irq.request(Interrupt::timer(i as usize))
            &&& !bit16(t.control, 6) ==> after_irq == irq
            &&& forall|k: int|
                0 <= k < NUM_TIMERS && k != i ==> #[trigger] after.timers[k] == b.timers[k]
        }),
{
    let t = b.timers[i];
    let loaded = b.with(i, Timer { counter: t.reload, anchor: at, ..t });
    assert(0u64 / t.prescaler() == 0);
    assert(counter_at(loaded.timers, i, at) == t.reload);
}

/// An overflow of timer `i` touches no timer below `i`, and leaves timer `i` as
/// its own reload left it.
proof fn lemma_overflow_goes_up(b: TimerBoard, irq: IrqState, i: int, now: u64)
    requires
        b.timers.len() == NUM_TIMERS,
        0 <= i < NUM_TIMERS,
    ensures
        b.overflow(irq, i, now).0.timers.len() == NUM_TIMERS,
        b.overflow(irq, i, now).0.timers[i].counter == b.timers[i].reload,
        forall|k: int|
            0 <= k < i ==> #[trigger] b.overflow(irq, i, now).0.timers[k] == b.timers[k],
    decreases NUM_TIMERS - i,
{
    let t = b.timers[i];
    let board = b.with(i, Timer { counter: t.reload, anchor: now, ..t }).armed(i, now);
    let requested = if bit16(t.control, 6) {
        irq.request(Interrupt::timer(i as usize))
    } else {
        irq
    };
    if i + 1 < NUM_TIMERS && board.timers[i + 1].running && in_cascade(board.timers, i + 1) {
        let n = board.timers[i + 1];
        let wrapped = board.with(i + 1, Timer { counter: 0, ..n });
        lemma_overflow_goes_up(wrapped, requested, i + 1, now);
        assert(b.overflow(irq, i, now) == board.count_up(requested, i + 1, now));
    }
}

/// Timers in cascade count long intervals: each overflow of a timer counts the
/// next one up, and overflows that one too when it was at its end.
pub proof fn law_cascade_counts_overflows(b: TimerBoard, irq: IrqState, i: int, at: u64)
    requires
        b.wf(),
        0 <= i < NUM_TIMERS - 1,
        b.timers[i].overflow_at == Some(at),
        b.timers[i + 1].running,
        in_cascade(b.timers, i + 1),
    ensures
        ({
            let after = b.on_overflow(irq, i, at).0.timers[i + 1].counter;
            if b.timers[i + 1].counter == 0xFFFF {
                after == b.timers[i + 1].reload
            } else {
                after == b.timers[i + 1].counter + 1
            }
        }),
{
    let t = b.timers[i];
    let board = b.with(i, Timer { counter: t.reload, anchor: at, ..t }).armed(i, at);
    let requested = if bit16(t.control, 6) {
        irq.request(Interrupt::timer(i as usize))
    } else {
        irq
    };
    assert(b.overflow(irq, i, at) == board.count_up(requested, i + 1, at));
    let n = board.timers[i + 1];
    lemma_overflow_goes_up(board.with(i + 1, Timer { counter: 0, ..n }), requested, i + 1, at);
}

/// An overflow does not move the clock.
pub proof fn lemma_overflow_keeps_clock(b: TimerBoard, irq: IrqState, i: int, now: u64)
    ensures
        b.on_overflow(irq, i, now).0.sched.now == b.sched.now,
{
    if 0 <= i < NUM_TIMERS {
        lemma_clock_kept_from(b, irq, i, now);
    }
}

proof fn lemma_clock_kept_from(b: TimerBoard, irq: IrqState, i: int, now: u64)
    requires
        0 <= i < NUM_TIMERS,
    ensures
        b.overflow(irq, i, now).0.sched.now == b.sched.now,
    decreases NUM_TIMERS - i,
{
    let t = b.timers[i];
    let board = b.with(i, Timer { counter: t.reload, anchor: now, ..t }).armed(i, now);
    let requested = if bit16(t.control, 6) {
        irq.request(Interrupt::timer(i as usize))
    } else {
        irq
    };
    if i + 1 < NUM_TIMERS && board.timers[i + 1].running && in_cascade(board.timers, i + 1) {
        let n = board.timers[i + 1];
        lemma_clock_kept_from(
            board.with(i + 1, Timer { counter: 0, ..n }),
            requested,
            i + 1,
            now,
        );
        assert(b.overflow(irq, i, now) == board.count_up(requested, i + 1, now));
    }
}

} // verus!
