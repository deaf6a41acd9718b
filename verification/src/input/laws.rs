//! What holds of the input card across pushes and register accesses.

use crate::be;
use crate::input;
use crate::input::{ev, reg, InputState, QueuedEvent, MAX_BUTTON, MAX_RAW_KEYCODE, QUEUE_CAPACITY};
use vstd::prelude::*;

verus! {

/// The key and button events of a queue, in order.
pub open spec fn discrete_events(events: Seq<QueuedEvent>) -> Seq<QueuedEvent> {
    events.filter(|e: QueuedEvent| e.discrete())
}

/// Filtering a queue with one more event on its end.
proof fn lemma_filter_push(events: Seq<QueuedEvent>, event: QueuedEvent)
    ensures
        discrete_events(events.push(event)) == if event.discrete() {
            discrete_events(events).push(event)
        } else {
            discrete_events(events)
        },
{
    reveal(Seq::filter);
    assert(events.push(event).drop_last() =~= events);
    assert(events.push(event).last() == event);
}

/// Taking a motion out of a queue keeps every discrete event.
proof fn lemma_filter_remove(events: Seq<QueuedEvent>, i: int)
    requires
        0 <= i < events.len(),
        !events[i].discrete(),
    ensures
        discrete_events(events.remove(i)) == discrete_events(events),
    decreases events.len(),
{
    if i == events.len() - 1 {
        assert(events.remove(i) =~= events.drop_last());
        lemma_filter_push(events.drop_last(), events.last());
        assert(events.drop_last().push(events.last()) =~= events);
    } else {
        let shorter = events.drop_last();
        lemma_filter_remove(shorter, i);
        assert(events.remove(i) =~= shorter.remove(i).push(events.last()));
        assert(events =~= shorter.push(events.last()));
        lemma_filter_push(shorter, events.last());
        lemma_filter_push(shorter.remove(i), events.last());
    }
}

/// No push ever loses or reorders a key or button event that is already
/// queued: an accepted one goes behind them all, and a motion leaves them
/// alone.
pub proof fn discrete_events_are_never_lost(s: InputState, event: QueuedEvent)
    ensures
        event.discrete() && s.accepts_discrete() ==> discrete_events(
            s.discrete_pushed(event).events,
        ) == discrete_events(s.events).push(event),
        event.discrete() && !s.accepts_discrete() ==> s.discrete_pushed(event).events == s.events,
        !event.discrete() ==> discrete_events(s.motion_pushed(event).events) == discrete_events(
            s.events,
        ),
{
    if event.discrete() && s.events.len() < QUEUE_CAPACITY {
        lemma_filter_push(s.events, event);
    } else if event.discrete() && s.accepts_discrete() {
        let i = choose|i: int| input::is_oldest_motion(s.events, i);
        lemma_filter_remove(s.events, i);
        lemma_filter_push(s.events.remove(i), event);
    } else if !event.discrete() && s.ends_in_motion() {
        let rest = s.events.drop_last();
        assert(rest.push(s.events.last()) =~= s.events);
        lemma_filter_push(rest, s.events.last());
        lemma_filter_push(rest, event);
    } else if !event.discrete() {
        lemma_filter_push(s.events, event);
    }
}

/// A key or button event is dropped only when the queue is full of nothing
/// but key and button events, and then it is counted.
pub proof fn only_a_queue_full_of_discrete_events_drops(s: InputState, event: QueuedEvent)
    requires
        s.wf(),
    ensures
        s.accepts_discrete() <==> !(s.events.len() == QUEUE_CAPACITY && forall|i: int|
            0 <= i < s.events.len() ==> (#[trigger] s.events[i]).discrete()),
        s.accepts_discrete() ==> s.discrete_pushed(event).overflow == s.overflow,
        !s.accepts_discrete() && s.overflow < u32::MAX ==> s.discrete_pushed(event).overflow
            == s.overflow + 1,
        s.motion_pushed(event).overflow == s.overflow,
{
    if exists|i: int| 0 <= i < s.events.len() && !(#[trigger] s.events[i]).discrete() {
        let i = choose|i: int| 0 <= i < s.events.len() && !(#[trigger] s.events[i]).discrete();
        lemma_some_motion(s.events, i);
    } else if input::has_motion(s.events) {
        let i = choose|i: int| input::is_oldest_motion(s.events, i);
        assert(!s.events[i].discrete());
    }
}

/// A queue with a motion in it has an oldest one.
proof fn lemma_some_motion(events: Seq<QueuedEvent>, i: int)
    requires
        0 <= i < events.len(),
        !events[i].discrete(),
    ensures
        input::has_motion(events),
    decreases i,
{
    if exists|j: int| 0 <= j < i && (#[trigger] events[j]).ty == ev::POINTER_MOTION {
        let j = choose|j: int| 0 <= j < i && (#[trigger] events[j]).ty == ev::POINTER_MOTION;
        lemma_some_motion(events, j);
    } else {
        assert(input::is_oldest_motion(events, i));
    }
}

/// A motion never jumps ahead of anything already queued: everything but a
/// motion at the very end keeps its place.
pub proof fn motion_never_jumps_the_queue(s: InputState, event: QueuedEvent)
    requires
        s.accepts_motion(),
    ensures
        s.motion_pushed(event).events.last() == event,
        s.motion_pushed(event).events.drop_last() == if s.ends_in_motion() {
            s.events.drop_last()
        } else {
            s.events
        },
{
    if s.ends_in_motion() {
        assert(s.events.drop_last().push(event).drop_last() =~= s.events.drop_last());
    } else {
        assert(s.events.push(event).drop_last() =~= s.events);
    }
}

/// Of two motions in a row only the second is seen: nothing observes the
/// intermediate position, and the queue grows by one entry at most.
pub proof fn consecutive_motion_coalesces(s: InputState, first: QueuedEvent, second: QueuedEvent)
    requires
        first.ty == ev::POINTER_MOTION,
        second.ty == ev::POINTER_MOTION,
    ensures
        s.motion_pushed(first).motion_pushed(second) == s.motion_pushed(second),
        s.motion_pushed(second).events.len() <= s.events.len() + 1,
{
    let once = s.motion_pushed(first);
    if s.accepts_motion() {
        motion_never_jumps_the_queue(s, first);
        assert(once.motion_pushed(second).events =~= s.motion_pushed(second).events);
    }
}

/// Motions with a discrete event between them both survive.
pub proof fn separated_motion_is_not_collapsed(
    s: InputState,
    first: QueuedEvent,
    between: QueuedEvent,
    second: QueuedEvent,
)
    requires
        s.events.len() + 3 <= QUEUE_CAPACITY,
        !s.ends_in_motion(),
        first.ty == ev::POINTER_MOTION,
        between.discrete(),
        second.ty == ev::POINTER_MOTION,
    ensures
        s.motion_pushed(first).discrete_pushed(between).motion_pushed(second).events
            == s.events.push(first).push(between).push(second),
{
}

/// No event is ever stranded: an acknowledgement while anything is still
/// queued leaves the latch set, and one on an empty queue clears it. With
/// well-formedness kept by every operation, unread events always have the
/// interrupt behind them.
pub proof fn no_event_is_stranded(s: InputState, value: u8)
    requires
        s.wf(),
    ensures
        s.events.len() > 0 ==> s.reg_written((reg::INT_STATUS + 3) as u32, value) == s,
        s.events.len() > 0 && s.int_enable != 0 ==> s.irq(),
        s.events.len() == 0 ==> !s.reg_written((reg::INT_STATUS + 3) as u32, 1).irq(),
{
}

/// Draining reads the queue in the order it was filled: the head registers
/// show the oldest event, and advancing reveals the next.
pub proof fn events_drain_in_order(s: InputState)
    requires
        s.events.len() > 0,
        s.wf(),
    ensures
        s.reg_read((reg::EVENT_TYPE + 3) as u32) == s.events[0].ty,
        s.reg_read((reg::EVENT_CODE + 3) as u32) == s.events[0].code,
        s.reg_written((reg::EVENT_ADVANCE + 3) as u32, 0).events == s.events.drop_first(),
{
}

/// The coordinate registers carry the absolute position intact.
pub proof fn coordinates_survive(s: InputState)
    requires
        s.events.len() > 0,
    ensures
        ({
            let word = be::be32(
                be::be16(s.reg_read(reg::EVENT_X), s.reg_read((reg::EVENT_X + 1) as u32)),
                be::be16(
                    s.reg_read((reg::EVENT_X + 2) as u32),
                    s.reg_read((reg::EVENT_X + 3) as u32),
                ),
            );
            &&& word == input::coordinate_word(s.events[0].x)
            &&& s.events[0].x == if word < 0x8000_0000 {
                word as int
            } else {
                word - 0x1_0000_0000
            }
        }),
        ({
            let word = be::be32(
                be::be16(s.reg_read(reg::EVENT_Y), s.reg_read((reg::EVENT_Y + 1) as u32)),
                be::be16(
                    s.reg_read((reg::EVENT_Y + 2) as u32),
                    s.reg_read((reg::EVENT_Y + 3) as u32),
                ),
            );
            &&& word == input::coordinate_word(s.events[0].y)
            &&& s.events[0].y == if word < 0x8000_0000 {
                word as int
            } else {
                word - 0x1_0000_0000
            }
        }),
{
    be::lanes_are_independent(input::coordinate_word(s.events[0].x), 0, 0, 0);
    be::lanes_are_independent(input::coordinate_word(s.events[0].y), 0, 0, 0);
}

/// The capacity register tells the depth at which the card starts to drop.
pub proof fn advertised_capacity_is_the_real_depth(s: InputState, event: QueuedEvent)
    requires
        forall|i: int| 0 <= i < s.events.len() ==> (#[trigger] s.events[i]).discrete(),
        s.wf(),
    ensures
        ({
            let capacity = be::be32(
                be::be16(s.reg_read(reg::CAPACITY), s.reg_read((reg::CAPACITY + 1) as u32)),
                be::be16(
                    s.reg_read((reg::CAPACITY + 2) as u32),
                    s.reg_read((reg::CAPACITY + 3) as u32),
                ),
            );
            s.accepts_discrete() == (s.events.len() < capacity)
        }),
{
    be::lanes_are_independent(QUEUE_CAPACITY as u32, 0, 0, 0);
    only_a_queue_full_of_discrete_events_drops(s, event);
}

/// Outside the register file reads give zero and writes are discarded, and
/// within a writable slot only the low-order byte is live.
pub proof fn unimplemented_space_is_inert(s: InputState, offset: u32, value: u8)
    ensures
        offset >= 0x30 ==> s.reg_read(offset) == 0,
        offset % 4 != 3 || offset >= 0x28 ==> s.reg_written(offset, value) == s,
{
}

/// Every event the card queues is one a driver can pass on: a key code or
/// button id in range, or a position in signed words.
pub proof fn queued_events_are_in_range(s: InputState, i: int)
    requires
        s.wf(),
        0 <= i < s.events.len(),
    ensures
        s.events[i].ty == ev::KEY_DOWN || s.events[i].ty == ev::KEY_UP ==> s.events[i].code
            <= MAX_RAW_KEYCODE,
        s.events[i].ty == ev::BUTTON_DOWN || s.events[i].ty == ev::BUTTON_UP ==> s.events[i].code
            <= MAX_BUTTON,
        s.events[i].ty == ev::POINTER_MOTION ==> input::in_range(s.events[i].x) && input::in_range(
            s.events[i].y,
        ),
{
    assert(s.events[i].valid());
}

} // verus!
