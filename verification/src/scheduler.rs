//! The event queue: hardware events ordered by the cycle in which they fire.
//!
//! A component schedules an event for a cycle; the main loop advances the clock
//! and takes out the events that are due. The order is total: by cycle, and by
//! order of insertion among events of the same cycle.

use vstd::prelude::*;

verus! {

/// The clock and the pending events in the order in which they fire.
#[verifier::ext_equal]
pub struct SchedulerState<E> {
    /// The clock, in cycles.
    pub now: u64,
    /// Pending events, each with its cycle; the first one fires first.
    pub queue: Seq<(u64, E)>,
}

/// Where an event for cycle `when` goes: after every event that fires no later,
/// looking from `from` on.
pub open spec fn slot_from<E>(queue: Seq<(u64, E)>, when: u64, from: int) -> int
    decreases queue.len() - from,
{
    if 0 <= from < queue.len() && queue[from].0 <= when {
        slot_from(queue, when, from + 1)
    } else {
        from
    }
}

impl<E> SchedulerState<E> {
    /// Clock at zero and nothing pending.
    pub open spec fn reset() -> SchedulerState<E> {
        SchedulerState { now: 0, queue: Seq::empty() }
    }

    /// The pending events fire in the order of the queue.
    pub open spec fn wf(self) -> bool {
        forall|i: int, j: int|
            0 <= i < j < self.queue.len() ==> (#[trigger] self.queue[i]).0 <= (
            #[trigger] self.queue[j]).0
    }

    /// With `event` added for cycle `when`.
    pub open spec fn schedule_at(self, when: u64, event: E) -> SchedulerState<E> {
        SchedulerState {
            queue: self.queue.insert(slot_from(self.queue, when, 0), (when, event)),
            ..self
        }
    }

    /// The cycle of the next event.
    pub open spec fn next_event_cycle(self) -> Option<u64> {
        if self.queue.len() > 0 {
            Some(self.queue[0].0)
        } else {
            None
        }
    }

    /// With the clock moved to `cycle`; it never moves back.
    pub open spec fn advance_to(self, cycle: u64) -> SchedulerState<E> {
        if cycle > self.now {
            SchedulerState { now: cycle, ..self }
        } else {
            self
        }
    }

    /// Whether the next event is due.
    pub open spec fn due(self) -> bool {
        self.queue.len() > 0 && self.queue[0].0 <= self.now
    }

    /// Without the next event.
    pub open spec fn popped(self) -> SchedulerState<E> {
        SchedulerState { queue: self.queue.remove(0), ..self }
    }
}

/// The event queue.
pub struct Scheduler<E> {
    queue: Vec<(u64, E)>,
    now: u64,
}

impl<E> View for Scheduler<E> {
    type V = SchedulerState<E>;

    closed spec fn view(&self) -> SchedulerState<E> {
        SchedulerState { now: self.now, queue: self.queue@ }
    }
}

impl<E> Scheduler<E> {
    /// An empty queue with the clock at zero.
    pub fn new() -> (r: Self)
        ensures
            r@ == SchedulerState::<E>::reset(),
            r@.wf(),
    {
        Scheduler { queue: Vec::new(), now: 0 }
    }

    /// The clock, in cycles.
    pub fn now(&self) -> (r: u64)
        ensures
            r == self@.now,
    {
        self.now
    }

    /// Whether nothing is pending.
    pub fn is_empty(&self) -> (r: bool)
        ensures
            r == (self@.queue.len() == 0),
    {
        self.queue.len() == 0
    }

    /// How many events are pending.
    pub fn len(&self) -> (r: usize)
        ensures
            r == self@.queue.len(),
    {
        self.queue.len()
    }

    /// Schedules `event` for the absolute cycle `when`. A cycle that is already
    /// past makes the event due at once.
    pub fn schedule_at(&mut self, when: u64, event: E)
        ensures
            final(self)@ == old(self)@.schedule_at(when, event),
            old(self)@.wf() ==> final(self)@.wf(),
    {
        let mut slot: usize = 0;
        while slot < self.queue.len() && self.queue[slot].0 <= when
            invariant
                slot <= self.queue@.len(),
                slot_from(self.queue@, when, 0) == slot_from(self.queue@, when, slot as int),
            decreases self.queue@.len() - slot,
        {
            slot = slot + 1;
        }
        proof {
            if self@.wf() {
                law_schedule_keeps_order(self@, when, event);
            }
        }
        self.queue.insert(slot, (when, event));
    }

    /// Schedules `event` for `delay` cycles from now, modulo 2^64.
    pub fn schedule_in(&mut self, delay: u64, event: E)
        ensures
            final(self)@ == old(self)@.schedule_at(
                ((old(self)@.now + delay) % 0x1_0000_0000_0000_0000) as u64,
                event,
            ),
            old(self)@.wf() ==> final(self)@.wf(),
    {
        let when: u64 = self.now.wrapping_add(delay);
        self.schedule_at(when, event);
    }

    /// The cycle of the next event, or `None` when nothing is pending.
    pub fn next_event_cycle(&self) -> (r: Option<u64>)
        ensures
            r == self@.next_event_cycle(),
    {
        if self.queue.len() > 0 {
            Some(self.queue[0].0)
        } else {
            None
        }
    }

    /// Moves the clock to `cycle`. The clock is monotonic: an earlier cycle
    /// leaves it where it is.
    pub fn advance_to(&mut self, cycle: u64)
        ensures
            final(self)@ == old(self)@.advance_to(cycle),
    {
        if cycle > self.now {
            self.now = cycle;
        }
    }

    /// Moves the clock `delta` cycles on.
    pub fn advance(&mut self, delta: u64)
        ensures
            final(self)@ == old(self)@.advance_to(
                ((old(self)@.now + delta) % 0x1_0000_0000_0000_0000) as u64,
            ),
    {
        let cycle: u64 = self.now.wrapping_add(delta);
        self.advance_to(cycle);
    }

    /// Takes out the next event if its cycle has come.
    pub fn pop_due(&mut self) -> (r: Option<E>)
        ensures
            old(self)@.due() ==> r == Some(old(self)@.queue[0].1) && final(self)@ == old(
                self,
            )@.popped(),
            !old(self)@.due() ==> r is None && final(self)@ == old(self)@,
            old(self)@.wf() ==> final(self)@.wf(),
    {
        if self.queue.len() > 0 && self.queue[0].0 <= self.now {
            proof {
                if self@.wf() {
                    law_pop_is_earliest(self@);
                }
            }
            let first: (u64, E) = self.queue.remove(0);
            Some(first.1)
        } else {
            None
        }
    }
}

impl<E> Default for Scheduler<E> {
    fn default() -> (r: Self)
        ensures
            r@ == SchedulerState::<E>::reset(),
    {
        Scheduler::new()
    }
}

/// The slot of an event splits an ordered queue: what stands before it fires no
/// later than the event and what stands behind it fires strictly later.
pub proof fn law_slot<E>(queue: Seq<(u64, E)>, when: u64, from: int)
    requires
        0 <= from <= queue.len(),
        forall|i: int| 0 <= i < from ==> (#[trigger] queue[i]).0 <= when,
        forall|i: int, j: int|
            0 <= i < j < queue.len() ==> (#[trigger] queue[i]).0 <= (#[trigger] queue[j]).0,
    ensures
        ({
            let slot = slot_from(queue, when, from);
            &&& from <= slot <= queue.len()
            &&& forall|i: int| 0 <= i < slot ==> (#[trigger] queue[i]).0 <= when
            &&& forall|i: int| slot <= i < queue.len() ==> (#[trigger] queue[i]).0 > when
        }),
    decreases queue.len() - from,
{
    if from < queue.len() && queue[from].0 <= when {
        law_slot(queue, when, from + 1);
    }
}

/// Scheduling keeps the queue ordered, puts the event behind all pending ones
/// of the same cycle, and keeps the pending ones in their order.
pub proof fn law_schedule_keeps_order<E>(state: SchedulerState<E>, when: u64, event: E)
    requires
        state.wf(),
    ensures
        state.schedule_at(when, event).wf(),
        ({
            let slot = slot_from(state.queue, when, 0);
            let after = state.schedule_at(when, event);
            &&& after.queue[slot] == (when, event)
            &&& after.queue.remove(slot) == state.queue
            &&& forall|i: int|
                0 <= i < after.queue.len() && i != slot && (#[trigger] after.queue[i]).0 <= when
                    ==> i < slot
        }),
{
    law_slot(state.queue, when, 0);
    let slot = slot_from(state.queue, when, 0);
    let after = state.schedule_at(when, event).queue;
    assert forall|i: int, j: int| 0 <= i < j < after.len() implies (#[trigger] after[i]).0 <= (
    #[trigger] after[j]).0 by {
        let oi = if i < slot {
            i
        } else {
            i - 1
        };
        let oj = if j < slot {
            j
        } else {
            j - 1
        };
        if i != slot {
            assert(after[i] == state.queue[oi]);
        }
        if j != slot {
            assert(after[j] == state.queue[oj]);
        }
    }
    assert(after.remove(slot) =~= state.queue);
}

/// No event fires early, and the events that come out are in order of their
/// cycle: the one taken out is due, and no pending one is for an earlier cycle.
pub proof fn law_pop_is_earliest<E>(state: SchedulerState<E>)
    requires
        state.wf(),
        state.due(),
    ensures
        state.queue[0].0 <= state.now,
        forall|i: int|
            0 <= i < state.popped().queue.len() ==> state.queue[0].0 <= (
            #[trigger] state.popped().queue[i]).0,
        state.popped().wf(),
{
}

/// The clock never goes back, and moving it touches no pending event.
pub proof fn law_clock_is_monotonic<E>(state: SchedulerState<E>, cycle: u64)
    ensures
        state.advance_to(cycle).now >= state.now,
        state.advance_to(cycle).now >= cycle,
        state.advance_to(cycle).queue == state.queue,
{
}

/// How overdue the pending events are at cycle `now`: an event for a cycle that
/// has come counts one for that cycle and one for each cycle since, a future
/// one counts nothing.
pub open spec fn backlog<E>(queue: Seq<(u64, E)>, now: u64) -> nat
    decreases queue.len(),
{
    if queue.len() == 0 {
        0
    } else {
        overdue(queue[0].0, now) + backlog(queue.drop_first(), now)
    }
}

/// The share of one event for cycle `when` in the backlog.
pub open spec fn overdue(when: u64, now: u64) -> nat {
    if when <= now {
        (now - when + 1) as nat
    } else {
        0
    }
}

/// An event adds its own share to the backlog, wherever it is put.
pub proof fn lemma_backlog_insert<E>(queue: Seq<(u64, E)>, slot: int, entry: (u64, E), now: u64)
    requires
        0 <= slot <= queue.len(),
    ensures
        backlog(queue.insert(slot, entry), now) == backlog(queue, now) + overdue(entry.0, now),
    decreases queue.len(),
{
    let after = queue.insert(slot, entry);
    if slot == 0 {
        assert(after.drop_first() =~= queue);
    } else {
        lemma_backlog_insert(queue.drop_first(), slot - 1, entry, now);
        assert(after.drop_first() =~= queue.drop_first().insert(slot - 1, entry));
    }
}

/// Taking out a due event and scheduling at most one strictly later event
/// shrinks the backlog, so draining the queue comes to an end.
pub proof fn law_drain_progress<E>(state: SchedulerState<E>, after: SchedulerState<E>)
    requires
        state.wf(),
        state.due(),
        after == state.popped() || exists|when: u64, event: E|
            when > state.queue[0].0 && after == #[trigger] state.popped().schedule_at(when, event),
    ensures
        backlog(after.queue, state.now) < backlog(state.queue, state.now),
{
    assert(state.queue.remove(0) =~= state.queue.drop_first());
    if after != state.popped() {
        let (when, event) = choose|when: u64, event: E|
            when > state.queue[0].0 && after == #[trigger] state.popped().schedule_at(when, event);
        law_pop_is_earliest(state);
        law_slot(state.popped().queue, when, 0);
        lemma_backlog_insert(
            state.popped().queue,
            slot_from(state.popped().queue, when, 0),
            (when, event),
            state.now,
        );
    }
}

} // verus!
