//! What the bus and the devices behind it do, from addresses and register bytes
//! to times, counters and requests.

use vstd::prelude::*;

use crate::bus::{AccessWidth, BusState};
use crate::interrupt::{Interrupt, IrqState};
use crate::timers::{Timer, TimerBoard};

verus! {

/// What an access costs in cycles. External work RAM has a 16-bit bus and two
/// wait states; palette and video RAM have a 16-bit bus; ROM has a 16-bit bus,
/// four wait states for a first access and two for one that follows. A word on a
/// 16-bit bus is a halfword and then one that follows. All else takes one.
pub proof fn law_access_times(addr: u32, seq: bool)
    ensures
        ({
            let region = addr / 0x100_0000;
            let half = crate::bus::cycles_of_access(addr, AccessWidth::Half, seq);
            let follows = crate::bus::cycles_of_access(addr, AccessWidth::Half, true);
            let byte = crate::bus::cycles_of_access(addr, AccessWidth::Byte, seq);
            let word = crate::bus::cycles_of_access(addr, AccessWidth::Word, seq);
            let narrow = region == 2 || region == 5 || region == 6 || 8 <= region <= 13;
            &&& byte == half
            &&& region == 2 ==> half == 3
            &&& 8 <= region <= 13 && seq ==> half == 3
            &&& 8 <= region <= 13 && !seq ==> half == 5
            &&& region != 2 && !(8 <= region <= 13) ==> half == 1
            &&& narrow ==> word == half + follows
            &&& !narrow ==> word == half
        }),
{
}

/// Which device answers at which I/O address: the DMA channels from 0x0B0 to
/// 0x0DF, the timers from 0x100 to 0x10F, the serial port from 0x120 to 0x12B and
/// at 0x134, and the interrupt controller from 0x200 to 0x203 and from 0x208 to
/// 0x20B. What is left is plain memory.
pub proof fn law_io_map(bus: BusState, off: u32, value: u8)
    requires
        off < 0x100_0000,
    ensures
        ({
            let addr = (0x0400_0000 + off) as u32;
            let after = bus.write8(addr, value);
            let dma = 0xB0 <= off < 0xE0;
            let timer = 0x100 <= off < 0x110;
            let serial = 0x120 <= off < 0x12C || 0x134 <= off < 0x136;
            let irq = 0x200 <= off < 0x204 || 0x208 <= off < 0x20C;
            &&& dma ==> bus.read8(addr) == bus.dma.read8(off) && after == (BusState {
                dma: bus.dma.write8(off, value),
                ..bus
            })
            &&& irq ==> bus.read8(addr) == bus.irq.read8(off) && after == (BusState {
                irq: bus.irq.write8(off, value),
                ..bus
            })
            &&& serial ==> bus.read8(addr) == bus.sio.read8(off) && after == (BusState {
                sio: bus.sio.write8(off, value),
                ..bus
            })
            &&& timer ==> bus.read8(addr) == crate::timers::read_byte(
                bus.timers,
                off,
                bus.sched.now,
            ) && after == bus.with_board(bus.board().write8(off, value, bus.sched.now))
            &&& !dma && !timer && !serial && !irq ==> if off < bus.io.len() {
                &&& bus.read8(addr) == bus.io[off as int]
                &&& after == (BusState { io: bus.io.update(off as int, value), ..bus })
            } else {
                bus.read8(addr) == 0 && after == bus
            }
        }),
{
    reveal(BusState::read8);
    reveal(BusState::write8);
    let addr = (0x0400_0000 + off) as u32;
    assert(addr / 0x100_0000 == 4 && addr % 0x100_0000 == off);
}

/// The request bit of each source: the picture unit has bits 0 to 2, timer `i`
/// has bit 3 + i, the serial port bit 7 and DMA channel `i` bit 8 + i.
pub proof fn law_request_bits(irq: IrqState, i: usize)
    requires
        i < 4,
    ensures
        ({
            let timer = if i == 0 {
                0x08u16
            } else if i == 1 {
                0x10u16
            } else if i == 2 {
                0x20u16
            } else {
                0x40u16
            };
            let dma = if i == 0 {
                0x100u16
            } else if i == 1 {
                0x200u16
            } else if i == 2 {
                0x400u16
            } else {
                0x800u16
            };
            &&& irq.request(Interrupt::VBlank).requested == irq.requested | 1u16
            &&& irq.request(Interrupt::HBlank).requested == irq.requested | 2u16
            &&& irq.request(Interrupt::VCounter).requested == irq.requested | 4u16
            &&& irq.request(Interrupt::timer(i)).requested == irq.requested | timer
            &&& irq.request(Interrupt::Serial).requested == irq.requested | 0x80u16
            &&& irq.request(Interrupt::dma(i)).requested == irq.requested | dma
            &&& irq.request(Interrupt::Keypad).requested == irq.requested | 0x1000u16
            &&& irq.request(Interrupt::GamePak).requested == irq.requested | 0x2000u16
            &&& irq.request(Interrupt::timer(i)).ie == irq.ie
            &&& irq.request(Interrupt::timer(i)).ime == irq.ime
        }),
{
}

/// An interrupt is served when it is enabled at 0x200, requested at 0x202 and
/// the master switch at 0x208 is on; a sleeping processor wakes without the
/// switch. The enable bits and the switch read back as written.
pub proof fn law_interrupt_registers(irq: IrqState, low: u8, high: u8)
    ensures
        ({
            let enabled = irq.write8(0x200, low).write8(0x201, high);
            let on = irq.write8(0x208, low);
            &&& enabled.ie == low + 0x100 * high
            &&& enabled.requested == irq.requested && enabled.ime == irq.ime
            &&& enabled.read8(0x200) == low && enabled.read8(0x201) == high
            &&& on.ime == (low % 2 == 1)
            &&& on.ie == irq.ie && on.requested == irq.requested
            &&& on.read8(0x208) == low % 2
            &&& irq.read8(0x202) + 0x100 * irq.read8(0x203) == irq.requested
            &&& irq.raised() == (irq.ie & irq.requested & 0x3FFF != 0)
            &&& irq.pending() == (irq.ime && irq.raised())
        }),
{
    let once = irq.write8(0x200, low);
    assert(once.ie % 0x100 == low);
}

/// The cycles per count of a timer: 1, 64, 256 or 1024 by the two low bits of its
/// control.
pub open spec fn cycles_per_count(t: Timer) -> int {
    if t.control % 4 == 0 {
        1
    } else if t.control % 4 == 1 {
        64
    } else if t.control % 4 == 2 {
        256
    } else {
        1024
    }
}

/// Whether a timer counts the overflows of the one before it: bit 2 of its
/// control, but not for timer 0.
pub open spec fn counts_overflows(timers: Seq<Timer>, i: int) -> bool {
    i > 0 && timers[i].control / 4 % 2 == 1
}

proof fn lemma_timer_control(timers: Seq<Timer>, i: int)
    ensures
        timers[i].prescaler() == cycles_per_count(timers[i]),
        crate::timers::in_cascade(timers, i) == counts_overflows(timers, i),
        crate::bits::bit16(timers[i].control, 6) == (timers[i].control / 0x40 % 2 == 1),
{
    crate::encoding::lemma_register_digits(timers[i].control);
}

/// What a counter reads: a timer that is off, or counts overflows, holds still;
/// any other has gone up once per period since it was loaded. The four bytes of
/// timer `i` stand at 0x100 + 4 i: the counter, then the control.
pub proof fn law_timer_reads(timers: Seq<Timer>, i: int, now: u64)
    requires
        0 <= i < 4,
        timers.len() == 4,
        now >= timers[i].anchor,
    ensures
        ({
            let t = timers[i];
            let base = (0x100 + 4 * i) as u32;
            let counter = if !t.running || counts_overflows(timers, i) {
                t.counter as int
            } else {
                (t.counter + (now - t.anchor) / cycles_per_count(t)) % 0x1_0000
            };
            &&& crate::timers::read_byte(timers, base, now) + 0x100 * crate::timers::read_byte(
                timers,
                (base + 1) as u32,
                now,
            ) == counter
            &&& crate::timers::read_byte(timers, (base + 2) as u32, now) + 0x100
                * crate::timers::read_byte(timers, (base + 3) as u32, now) == t.control
        }),
{
    lemma_timer_control(timers, i);
    let base = (0x100 + 4 * i) as u32;
    assert((base - 0x100) / 4 == i && (base - 0x100) % 4 == 0);
    assert((base + 1 - 0x100) / 4 == i && (base + 1 - 0x100) % 4 == 1);
    assert((base + 2 - 0x100) / 4 == i && (base + 2 - 0x100) % 4 == 2);
    assert((base + 3 - 0x100) / 4 == i && (base + 3 - 0x100) % 4 == 3);
}

/// Writing the counter of a timer sets what it is loaded with, byte by byte, and
/// writing its control with bit 7 set while it is off loads it and schedules its
/// overflow: as many periods later as it has counts to go.
pub proof fn law_timer_writes(b: TimerBoard, i: int, value: u8, now: u64)
    requires
        b.wf(),
        0 <= i < 4,
    ensures
        ({
            let t = b.timers[i];
            let base = (0x100 + 4 * i) as u32;
            let low = b.write8(base, value, now).timers[i];
            let high = b.write8((base + 1) as u32, value, now).timers[i];
            &&& low == (Timer { reload: low.reload, ..t })
            &&& high == (Timer { reload: high.reload, ..t })
            &&& low.reload % 0x100 == value && low.reload / 0x100 == t.reload / 0x100
            &&& high.reload / 0x100 == value && high.reload % 0x100 == t.reload % 0x100
            &&& value >= 0x80 && !t.running ==> {
                let after = b.write8((base + 2) as u32, value, now).timers;
                let on = after[i];
                let at = now + (0x1_0000 - t.reload) * cycles_per_count(on);
                &&& on.running
                &&& on.counter == t.reload
                &&& on.anchor == now
                &&& on.control % 0x100 == value
                &&& on.reload == t.reload
                &&& on.overflow_at == if counts_overflows(after, i) || at > u64::MAX {
                    None
                } else {
                    Some(at as u64)
                }
            }
        }),
{
    let base = (0x100 + 4 * i) as u32;
    assert((base - 0x100) / 4 == i && (base - 0x100) % 4 == 0);
    assert((base + 1 - 0x100) / 4 == i && (base + 1 - 0x100) % 4 == 1);
    assert((base + 2 - 0x100) / 4 == i && (base + 2 - 0x100) % 4 == 2);
    let t = b.timers[i];
    let control = (t.control / 0x100 * 0x100 + value) as u16;
    let loaded = b.timers.update(
        i,
        Timer { control, counter: t.reload, anchor: now, running: true, ..t },
    );
    lemma_timer_control(loaded, i);
    if value >= 0x80 && !t.running {
        let after = b.write8((base + 2) as u32, value, now).timers;
        let board = b.with(i, Timer { control, ..t });
        assert(board.timers.update(
            i,
            Timer { counter: t.reload, anchor: now, running: true, ..board.timers[i] },
        ) =~= loaded);
        assert(after[i].control == control);
        lemma_timer_control(after, i);
        assert(crate::timers::counter_at(loaded, i, now) == t.reload) by {
            assert(0int / cycles_per_count(loaded[i]) == 0);
        }
    }
}

/// An overflow loads the timer again, and with bit 6 of its control requests the
/// interrupt of that timer.
pub proof fn law_timer_overflow(b: TimerBoard, irq: IrqState, at: u64)
    requires
        b.wf(),
        b.timers[3].overflow_at == Some(at),
    ensures
        ({
            let (after, requests) = b.on_overflow(irq, 3, at);
            &&& after.timers[3].counter == b.timers[3].reload
            &&& after.timers[3].anchor == at
            &&& requests.requested == if b.timers[3].control / 0x40 % 2 == 1 {
                irq.requested | 0x40u16
            } else {
                irq.requested
            }
        }),
{
    lemma_timer_control(b.timers, 3);
}

/// A window pixel holds red above green above blue, eight bits each.
pub proof fn law_window_pixel(r: u8, g: u8, b: u8)
    ensures
        ({
            let pixel = crate::frontend::pixel_0rgb(r, g, b);
            &&& pixel % 0x100 == b
            &&& pixel / 0x100 % 0x100 == g
            &&& pixel / 0x1_0000 == r
        }),
{
}

/// The number that decimal digits stand for.
pub open spec fn digits_value(text: Seq<char>) -> int
    decreases text.len(),
{
    if text.len() == 0 {
        0
    } else {
        digits_value(text.drop_last()) * 10 + (text.last() as int - '0' as int)
    }
}

/// The decimal text of a number stands for it, and has no leading zero.
pub proof fn law_decimal_text(n: nat)
    ensures
        digits_value(crate::text::decimal_text(n)) == n,
        crate::text::decimal_text(n).len() >= 1,
        n > 0 ==> crate::text::decimal_text(n)[0] != '0',
    decreases n,
{
    let text = crate::text::decimal_text(n);
    if n >= 10 {
        law_decimal_text(n / 10);
        let rest = crate::text::decimal_text(n / 10);
        assert(text.drop_last() =~= rest);
        assert(text.last() as int - '0' as int == n % 10);
    } else {
        assert(text.drop_last() =~= Seq::empty());
        assert(digits_value(Seq::empty()) == 0);
        assert(text.last() as int - '0' as int == n);
    }
}

/// The header of a cartridge: twelve bytes of title from 0xA0 on and four of the
/// game code from 0xAC on.
pub proof fn law_header_fields(rom: Seq<u8>, k: int)
    requires
        rom.len() >= 0xC0,
    ensures
        crate::header::title_bytes(rom).len() == 12,
        0 <= k < 12 ==> crate::header::title_bytes(rom)[k] == rom[0xA0 + k],
        crate::header::game_code_bytes(rom).len() == 4,
        0 <= k < 4 ==> crate::header::game_code_bytes(rom)[k] == rom[0xAC + k],
        crate::cartridge::MIN_ROM_SIZE == 192,
        crate::cartridge::MAX_ROM_SIZE == 0x200_0000,
        crate::bus::BIOS_SIZE == 0x4000,
{
}

} // verus!
