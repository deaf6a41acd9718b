//! What a driver sees of the card: numbers read out of its registers byte by
//! byte, and the order in which events reach it.

use crate::be;
use crate::input;
use crate::input::{InputState, QueuedEvent};
use vstd::prelude::*;

verus! {

/// The number that the four bytes of a register slot spell.
pub open spec fn shown(s: InputState, at: int) -> int {
    ((s.reg_read(at as u32) * 256 + s.reg_read((at + 1) as u32)) * 256 + s.reg_read(
        (at + 2) as u32,
    )) * 256 + s.reg_read((at + 3) as u32)
}

/// A register read as a two's-complement number.
pub open spec fn shown_signed(s: InputState, at: int) -> int {
    if shown(s, at) < 0x8000_0000 {
        shown(s, at)
    } else {
        shown(s, at) - 0x1_0000_0000
    }
}

proof fn lemma_lanes(v: u32)
    ensures
        ((be::byte_lane(v, 0) * 256 + be::byte_lane(v, 1)) * 256 + be::byte_lane(v, 2)) * 256
            + be::byte_lane(v, 3) == v,
{
}

/// Whether the head registers show this event.
pub open spec fn shows(s: InputState, event: QueuedEvent) -> bool {
    &&& shown(s, 0x00) == event.ty
    &&& shown(s, 0x04) == event.code
    &&& shown(s, 0x08) == event.qualifier
    &&& shown_signed(s, 0x0C) == event.x
    &&& shown_signed(s, 0x10) == event.y
}

/// The head registers show the oldest event, or zeros when there is none.
pub proof fn registers_show_the_oldest_event(s: InputState)
    ensures
        s.events.len() > 0 ==> shows(s, s.events[0]),
        s.events.len() == 0 ==> shows(
            s,
            QueuedEvent { ty: 0, code: 0, qualifier: 0, x: 0, y: 0 },
        ),
{
    let e = s.head();
    lemma_lanes(e.qualifier as u32);
    lemma_lanes(input::coordinate_word(e.x));
    lemma_lanes(input::coordinate_word(e.y));
}

/// The other registers: how many events wait, how many were dropped, the
/// interrupt latch and its enable, the depth of the queue and the protocol
/// version.
pub proof fn registers_show_the_queue(s: InputState)
    requires
        s.events.len() <= 16,
    ensures
        shown(s, 0x14) == 0,
        shown(s, 0x18) == s.events.len(),
        shown(s, 0x1C) == s.overflow,
        shown(s, 0x20) == s.int_status,
        shown(s, 0x24) == s.int_enable,
        shown(s, 0x28) == 16,
        shown(s, 0x2C) == 1,
{
    lemma_lanes(s.events.len() as u32);
    lemma_lanes(s.overflow);
    lemma_lanes(16);
    lemma_lanes(1);
}

/// The card after the driver has moved on `n` times.
pub open spec fn moved_on(s: InputState, n: nat) -> InputState
    decreases n,
{
    if n == 0 {
        s
    } else {
        moved_on(s, (n - 1) as nat).reg_written(0x17, 0)
    }
}

proof fn lemma_moved_on(s: InputState, n: nat)
    requires
        n <= s.events.len(),
    ensures
        moved_on(s, n) == (InputState { events: s.events.skip(n as int), ..s }),
    decreases n,
{
    if n > 0 {
        lemma_moved_on(s, (n - 1) as nat);
        assert(s.events.skip(n - 1).drop_first() =~= s.events.skip(n as int));
    } else {
        assert(s.events.skip(0) =~= s.events);
    }
}

/// Moving on shows the queued events one after the other, oldest first, and
/// then nothing.
pub proof fn a_driver_sees_every_event_in_order(s: InputState, n: nat)
    requires
        n <= s.events.len(),
    ensures
        n < s.events.len() ==> shows(moved_on(s, n), s.events[n as int]),
        n == s.events.len() ==> shown(moved_on(s, n), 0x00) == 0,
        moved_on(s, n).overflow == s.overflow,
        moved_on(s, n).int_status == s.int_status,
        moved_on(s, n).int_enable == s.int_enable,
{
    lemma_moved_on(s, n);
    registers_show_the_oldest_event(moved_on(s, n));
}

/// A key or button event pushed into a queue with room is the last thing the
/// driver sees, after everything that waited before it, and raises the
/// interrupt latch.
pub proof fn a_pushed_event_is_seen_last(s: InputState, event: QueuedEvent, n: nat)
    requires
        s.events.len() < 16,
        n < s.events.len(),
    ensures
        ({
            let after = s.discrete_pushed(event);
            &&& shows(moved_on(after, s.events.len()), event)
            &&& shows(moved_on(after, n), s.events[n as int])
            &&& after.events.len() == s.events.len() + 1
            &&& after.int_status == 1
            &&& after.int_enable == s.int_enable
            &&& after.overflow == s.overflow
        }),
{
    let after = s.discrete_pushed(event);
    a_driver_sees_every_event_in_order(after, s.events.len());
    a_driver_sees_every_event_in_order(after, n);
}

/// A pointer position replaces a position that the driver has not reached
/// and that nothing was queued behind; otherwise it goes to the end if there
/// is room.
pub proof fn a_position_is_seen_last(s: InputState, event: QueuedEvent)
    requires
        event.ty == 3,
    ensures
        ({
            let after = s.motion_pushed(event);
            let n = s.events.len();
            &&& n > 0 && s.events[n - 1].ty == 3 ==> after.events == s.events.update(n - 1, event)
                && after.int_status == 1
            &&& !(n > 0 && s.events[n - 1].ty == 3) && n < 16 ==> after.events == s.events.push(
                event,
            ) && after.int_status == 1
            &&& !(n > 0 && s.events[n - 1].ty == 3) && n >= 16 ==> after == s
        }),
{
    let n = s.events.len();
    if n > 0 && s.events[n - 1].ty == 3 {
        assert(s.events.drop_last().push(event) =~= s.events.update(n - 1, event));
    }
}

/// In a full queue a key or button event takes the place of the oldest
/// position, which is given up; everything else keeps its order.
pub proof fn a_full_queue_gives_up_its_oldest_position(s: InputState, event: QueuedEvent, i: int)
    requires
        s.events.len() == 16,
        0 <= i < 16,
        s.events[i].ty == 3,
        forall|j: int| 0 <= j < i ==> (#[trigger] s.events[j]).ty != 3,
    ensures
        s.discrete_pushed(event).events == s.events.remove(i).push(event),
        s.discrete_pushed(event).overflow == s.overflow,
        s.discrete_pushed(event).int_status == 1,
{
    input::lemma_oldest_motion(s.events, i);
}

/// A full queue without a position drops the event, counts it and latches
/// the interrupt.
pub proof fn a_full_queue_counts_what_it_drops(s: InputState, event: QueuedEvent)
    requires
        s.events.len() == 16,
        forall|j: int| 0 <= j < 16 ==> (#[trigger] s.events[j]).ty != 3,
    ensures
        ({
            let after = s.discrete_pushed(event);
            &&& after.events == s.events
            &&& after.overflow == (s.overflow + 1) % 0x1_0000_0000
            &&& after.int_status == 1
        }),
{
    if input::has_motion(s.events) {
        let i = choose|i: int| input::is_oldest_motion(s.events, i);
        assert(s.events[i].ty != 3);
    }
}

/// The interrupt line is up exactly while the latch is set and enabled. The
/// enable is held as written; the latch is cleared by writing an odd value
/// once the queue is empty, and by nothing else.
pub proof fn the_interrupt_follows_latch_and_enable(s: InputState, value: u8)
    ensures
        s.irq() <==> s.int_enable != 0 && s.int_status != 0,
        s.reg_written(0x27, value) == (InputState { int_enable: value, ..s }),
        s.reg_written(0x23, value) == (if s.events.len() == 0 && value % 2 == 1 {
            InputState { int_status: 0, ..s }
        } else {
            s
        }),
{
}

} // verus!
