//! What a DMA channel is set up to copy, from the bytes of its registers to the
//! memory after the transfer.

use vstd::prelude::*;

use crate::bus::BusState;
use crate::dma::{DmaState, DmaTransfer};

verus! {

/// The halfword that the registers hold at byte `at`.
pub open spec fn half_in(dma: DmaState, at: int) -> int {
    dma.regs[at] + 0x100 * dma.regs[at + 1]
}

/// The word that the registers hold at byte `at`.
pub open spec fn word_in(dma: DmaState, at: int) -> int {
    dma.regs[at] + 0x100 * dma.regs[at + 1] + 0x1_0000 * dma.regs[at + 2] + 0x100_0000
        * dma.regs[at + 3]
}

/// A transfer has as many units as the count register says; zero stands for
/// 0x4000 of them, in channel 3 for 0x10000. The channels below 3 have fourteen
/// bits of count.
pub proof fn law_planned_count(dma: DmaState, ch: int, c: int)
    requires
        dma.wf(),
        0 <= ch < 4,
        half_in(dma, ch * 12 + 8) == c,
    ensures
        1 <= c < 0x4000 ==> dma.plan(ch).count == c,
        ch == 3 && c >= 1 ==> dma.plan(ch).count == c,
        ch == 3 && c == 0 ==> dma.plan(ch).count == 0x1_0000,
        ch < 3 && c % 0x4000 == 0 ==> dma.plan(ch).count == 0x4000,
        ch < 3 && c % 0x4000 != 0 ==> dma.plan(ch).count == c % 0x4000,
{
}

/// A transfer starts at the addresses in the registers, rounded down to a unit
/// and cut to what the channel reaches. Bit 10 of the control halfword chooses
/// words; bits 8-7 say how the source moves after a unit and bits 6-5 how the
/// destination does: up, down, or not at all, where 3 moves the destination up.
pub proof fn law_planned_addresses(dma: DmaState, ch: int)
    requires
        dma.wf(),
        0 <= ch < 4,
    ensures
        ({
            let control = half_in(dma, ch * 12 + 10);
            let unit = if control / 0x400 % 2 == 1 {
                4int
            } else {
                2int
            };
            let src = word_in(dma, ch * 12) % (if ch == 0 {
                0x800_0000int
            } else {
                0x1000_0000int
            });
            let dst = word_in(dma, ch * 12 + 4) % (if ch == 3 {
                0x1000_0000int
            } else {
                0x800_0000int
            });
            let plan = dma.plan(ch);
            &&& plan.word == (unit == 4)
            &&& plan.src == src - src % unit
            &&& plan.dst == dst - dst % unit
            &&& control / 0x80 % 4 == 0 ==> plan.src_step == unit
            &&& control / 0x80 % 4 == 1 ==> plan.src_step == -unit
            &&& control / 0x80 % 4 >= 2 ==> plan.src_step == 0
            &&& control / 0x20 % 4 == 0 ==> plan.dst_step == unit
            &&& control / 0x20 % 4 == 1 ==> plan.dst_step == -unit
            &&& control / 0x20 % 4 == 2 ==> plan.dst_step == 0
            &&& control / 0x20 % 4 == 3 ==> plan.dst_step == unit
        }),
{
    let control = dma.control(ch);
    assert(control == half_in(dma, ch * 12 + 10));
    assert(dma.reg32(ch, 0) == word_in(dma, ch * 12));
    assert(dma.reg32(ch, 4) == word_in(dma, ch * 12 + 4));
    crate::encoding::lemma_register_digits(control);
}

/// A channel starts when its enable bit, bit 15 of the control halfword, has
/// risen and bits 13-12 ask for an immediate start. It asks for an interrupt
/// with bit 14.
pub proof fn law_immediate_start(dma: DmaState, ch: int)
    requires
        dma.wf(),
        0 <= ch < 4,
    ensures
        ({
            let control = half_in(dma, ch * 12 + 10);
            &&& dma.triggers(ch) == (control >= 0x8000 && !dma.latch[ch] && control / 0x1000 % 4
                == 0)
            &&& dma.irq_on_end(ch) == (control / 0x4000 % 2 == 1)
            &&& dma.latched(ch).latch[ch] == (control >= 0x8000)
        }),
{
    let control = dma.control(ch);
    assert(control == half_in(dma, ch * 12 + 10));
    crate::encoding::lemma_register_digits(control);
}

/// Writing a control halfword with the enable bit and an immediate start to a
/// channel that was off copies at once: all `c` units that the count register
/// announces arrive, each holding what its source held, when they go to distinct
/// places in RAM that are no sources.
pub proof fn law_enabling_copies(bus: BusState, ch: int, control: u16, t: DmaTransfer, k: int)
    requires
        bus.wf(),
        0 <= ch < 4,
        !bus.dma.running,
        forall|c: int| 0 <= c < 4 ==> #[trigger] crate::memory_laws::is_quiet(bus.dma, c),
        half_in(bus.dma, ch * 12 + 10) < 0x8000,
        control >= 0x8000,
        control / 0x1000 % 4 == 0,
        control / 0x80 % 4 == 0,
        control / 0x20 % 4 == 0,
        t.word == (control / 0x400 % 2 == 1),
        t.src == word_in(bus.dma, ch * 12),
        t.dst == word_in(bus.dma, ch * 12 + 4),
        t.src < 0x800_0000,
        t.dst < 0x800_0000,
        crate::memory_laws::unit_aligned(t.word, t.src),
        crate::memory_laws::unit_aligned(t.word, t.dst),
        t.count == half_in(bus.dma, ch * 12 + 8),
        1 <= t.count,
        ch == 3 || t.count < 0x4000,
        t.src_step == if t.word {
            4int
        } else {
            2int
        },
        t.dst_step == t.src_step,
        crate::memory_laws::is_plain_copy(t, t.count as nat),
        forall|j: int|
            0 <= j < t.count ==> crate::memory_laws::is_ram(
                #[trigger] crate::memory_laws::source_of(t, j),
            ),
        0 <= k < t.count,
    ensures
        ({
            let after = bus.write16((0x0400_00BA + 12 * ch) as u32, control);
            let step = t.src_step * k;
            let to = ((t.dst + step) % 0x1_0000_0000) as u32;
            let from = ((t.src + step) % 0x1_0000_0000) as u32;
            &&& t.word ==> after.read32(to) == bus.read32(from)
            &&& !t.word ==> after.read16(to) == bus.read16(from)
        }),
{
    let addr = (0x0400_00BA + 12 * ch) as u32;
    let armed = bus.store16(addr, control);
    lemma_armed(bus, ch, control);
    lemma_plan(armed.dma, ch, t);
    lemma_control_write_polls(bus, ch, control);
    crate::memory_laws::law_armed_channel_runs(armed, ch);
    let ready = BusState { dma: armed.dma.latched(ch), ..armed };
    assert(ready.dma.plan(ch) == t);
    let started = BusState { dma: DmaState { running: true, ..ready.dma }, ..ready };
    crate::memory_laws::law_transfer_copies(started, t, t.count as nat);
    lemma_unit_after_run(bus, started, ready, t, ch, k);
    assert(t.src_step == t.dst_step);
}

proof fn lemma_control_write_polls(bus: BusState, ch: int, control: u16)
    requires
        0 <= ch < 4,
        !bus.store16((0x0400_00BA + 12 * ch) as u32, control).dma.running,
    ensures
        bus.write16((0x0400_00BA + 12 * ch) as u32, control) == bus.store16(
            (0x0400_00BA + 12 * ch) as u32,
            control,
        ).poll_channels(0),
{
    reveal(BusState::after_write);
}

/// The plan of a channel whose addresses are aligned and move up.
proof fn lemma_plan(dma: DmaState, ch: int, t: DmaTransfer)
    requires
        dma.wf(),
        0 <= ch < 4,
        half_in(dma, ch * 12 + 10) / 0x80 % 4 == 0,
        half_in(dma, ch * 12 + 10) / 0x20 % 4 == 0,
        t.word == (half_in(dma, ch * 12 + 10) / 0x400 % 2 == 1),
        t.src == word_in(dma, ch * 12),
        t.dst == word_in(dma, ch * 12 + 4),
        t.src < 0x800_0000,
        t.dst < 0x800_0000,
        crate::memory_laws::unit_aligned(t.word, t.src),
        crate::memory_laws::unit_aligned(t.word, t.dst),
        t.count == half_in(dma, ch * 12 + 8),
        1 <= t.count,
        ch == 3 || t.count < 0x4000,
        t.src_step == if t.word {
            4int
        } else {
            2int
        },
        t.dst_step == t.src_step,
    ensures
        dma.plan(ch) == t,
{
    law_planned_count(dma, ch, t.count as int);
    law_planned_addresses(dma, ch);
}

/// A control halfword that enables a channel arrives in its registers.
proof fn lemma_armed(bus: BusState, ch: int, control: u16)
    requires
        bus.wf(),
        0 <= ch < 4,
        forall|c: int| 0 <= c < 4 ==> #[trigger] crate::memory_laws::is_quiet(bus.dma, c),
        half_in(bus.dma, ch * 12 + 10) < 0x8000,
        control >= 0x8000,
        control / 0x1000 % 4 == 0,
    ensures
        ({
            let armed = bus.store16((0x0400_00BA + 12 * ch) as u32, control);
            &&& armed == (BusState { dma: armed.dma, ..bus })
            &&& armed.dma.running == bus.dma.running
            &&& armed.wf()
            &&& half_in(armed.dma, ch * 12 + 10) == control
            &&& half_in(armed.dma, ch * 12 + 8) == half_in(bus.dma, ch * 12 + 8)
            &&& word_in(armed.dma, ch * 12) == word_in(bus.dma, ch * 12)
            &&& word_in(armed.dma, ch * 12 + 4) == word_in(bus.dma, ch * 12 + 4)
            &&& armed.dma.triggers(ch)
            &&& forall|c: int|
                0 <= c < 4 && c != ch ==> #[trigger] crate::memory_laws::is_quiet(armed.dma, c)
        }),
{
    let armed = bus.store16((0x0400_00BA + 12 * ch) as u32, control);
    assert(armed == (BusState { dma: armed.dma, ..bus }) && armed.dma == bus.dma.write8(
        (0xBA + 12 * ch) as u32,
        (control % 0x100) as u8,
    ).write8((0xBB + 12 * ch) as u32, (control / 0x100) as u8)) by {
        reveal(BusState::write8);
    }
    law_immediate_start(armed.dma, ch);
    assert(crate::memory_laws::is_quiet(bus.dma, ch));
    assert(bus.dma.control(ch) == half_in(bus.dma, ch * 12 + 10));
    crate::encoding::lemma_register_digits(bus.dma.control(ch));
    assert forall|c: int| 0 <= c < 4 && c != ch implies #[trigger] crate::memory_laws::is_quiet(
        armed.dma,
        c,
    ) by {
        assert(crate::memory_laws::is_quiet(bus.dma, c));
        assert(armed.dma.control(c) == bus.dma.control(c));
    }
}

proof fn lemma_unit_after_run(
    bus: BusState,
    started: BusState,
    ready: BusState,
    t: DmaTransfer,
    ch: int,
    k: int,
)
    requires
        0 <= ch < 4,
        0 <= k < t.count,
        ready == (BusState { dma: ready.dma, ..bus }),
        started == (BusState { dma: DmaState { running: true, ..ready.dma }, ..ready }),
        ready.dma.plan(ch) == t,
        crate::memory_laws::is_copied(
            started,
            started.dma_copy(t, t.count as nat),
            t,
            t.count as nat,
        ),
        crate::memory_laws::is_plain_copy(t, t.count as nat),
        crate::memory_laws::is_ram(crate::memory_laws::source_of(t, k)),
    ensures
        ({
            let after = ready.run_dma(ch);
            let to = ((t.dst + t.dst_step * k) % 0x1_0000_0000) as u32;
            let from = ((t.src + t.src_step * k) % 0x1_0000_0000) as u32;
            &&& t.word ==> after.read32(to) == bus.read32(from)
            &&& !t.word ==> after.read16(to) == bus.read16(from)
        }),
{
    let after = ready.run_dma(ch);
    let copied = started.dma_copy(t, t.count as nat);
    let to = crate::memory_laws::target_of(t, k);
    let from = crate::memory_laws::source_of(t, k);
    assert(crate::memory_laws::is_ram(to) && crate::memory_laws::unit_aligned(t.word, to));
    assert(crate::memory_laws::unit_aligned(t.word, from));
    assert(crate::memory_laws::unit_at(copied, t.word, to) == crate::memory_laws::unit_at(
        started,
        t.word,
        from,
    ));
    assert forall|a: u32| crate::memory_laws::is_ram(a) implies #[trigger] copied.read8(a)
        == after.read8(a) by {
        crate::memory_laws::law_transfer_end_leaves_memory(ready, ch, a);
    }
    assert forall|a: u32| crate::memory_laws::is_ram(a) implies #[trigger] started.read8(a)
        == bus.read8(a) by {
        reveal(BusState::read8);
    }
    lemma_ram_unit(copied, after, t.word, to);
    lemma_ram_unit(started, bus, t.word, from);
    lemma_ends(t, k);
}

proof fn lemma_ends(t: DmaTransfer, k: int)
    ensures
        crate::memory_laws::target_of(t, k) == ((t.dst + t.dst_step * k) % 0x1_0000_0000),
        crate::memory_laws::source_of(t, k) == ((t.src + t.src_step * k) % 0x1_0000_0000),
{
    reveal(crate::memory_laws::target_of);
    reveal(crate::memory_laws::source_of);
    assert(k * t.dst_step == t.dst_step * k) by (nonlinear_arith);
    assert(k * t.src_step == t.src_step * k) by (nonlinear_arith);
}

/// Memories that agree on RAM agree on a unit in it.
proof fn lemma_ram_unit(x: BusState, y: BusState, word: bool, base: u32)
    requires
        crate::memory_laws::is_ram(base),
        crate::memory_laws::unit_aligned(word, base),
        forall|a: u32| crate::memory_laws::is_ram(a) ==> #[trigger] x.read8(a) == y.read8(a),
    ensures
        word ==> x.read32(base) == y.read32(base),
        !word ==> x.read16(base) == y.read16(base),
        crate::memory_laws::unit_at(x, word, base) == crate::memory_laws::unit_at(y, word, base),
{
    assert(crate::memory_laws::is_ram((base + 1) as u32));
    if word {
        assert(crate::memory_laws::is_ram((base + 2) as u32));
        assert(crate::memory_laws::is_ram((base + 3) as u32));
    }
}

} // verus!
