//! The host side of the native input card: a register file over a queue of
//! key, button and absolute pointer events.
//!
//! # Interrupt model: a latch, not a level
//!
//! INT_STATUS latches on every queued event, and on every key or button
//! event that had to be dropped, whether or not INT_ENABLE lets it reach
//! INT2. Writing 1 clears it, but only once the queue is empty: a server
//! that acknowledges before it has drained the queue cannot strand what is
//! left.
//!
//! # Overflow policy: coalesce motion, protect discrete events
//!
//! A later pointer position supersedes an earlier one, while a lost key-up
//! leaves a key stuck down in the guest. So a motion event overwrites the
//! newest entry when that is a motion too, and a key or button event that
//! finds the queue full evicts the oldest queued motion. Only a queue full
//! of discrete events drops one, and counts it. Motion is merged into the
//! newest entry alone, since merging it any further forward would reorder a
//! click against the motion that positioned it.

use crate::autoconfig::{BoardSpec, ERT_ZORROIII};
use crate::be;
use crate::fastram::{ERFF_EXTENDED, ERFF_ZORRO_III};
use crate::ring::Ring;
use crate::slot;
use vstd::prelude::*;

pub mod button;
pub mod driver_laws;
pub mod ev;
pub mod laws;
pub mod reg;

verus! {

/// The manufacturer number reserved for test use, shared by the native
/// cards.
pub const MANUFACTURER: u16 = crate::hostblk::MANUFACTURER;

/// This card's product number under [`MANUFACTURER`].
pub const PRODUCT: u8 = 3;

/// The Zorro III AUTOCONFIG window: 16 MB, extended-table code 0.
pub const WINDOW_BYTES: u32 = 0x0100_0000;

/// How many events the card holds.
pub const QUEUE_CAPACITY: usize = 16;

/// The value [`reg::VERSION`] reports.
pub const PROTOCOL_VERSION: u32 = 1;

/// The highest raw key code this card accepts: a driver can still add an
/// up/down bit on top without overflowing a byte.
pub const MAX_RAW_KEYCODE: u8 = 0x7F;

/// The highest button id [`NativeInput::push_button`] accepts.
pub const MAX_BUTTON: u8 = button::MIDDLE;

/// One queued event, in the shape the register file reads it back in.
#[derive(Clone, Copy, Debug, PartialEq, Eq, Structural)]
pub struct QueuedEvent {
    pub ty: u8,
    pub code: u8,
    pub qualifier: u16,
    pub x: i32,
    pub y: i32,
}

impl QueuedEvent {
    /// What an empty queue shows.
    pub open spec fn none() -> QueuedEvent {
        QueuedEvent { ty: ev::NONE, code: 0, qualifier: 0, x: 0, y: 0 }
    }

    /// A key or button transition, which nothing supersedes.
    pub open spec fn discrete(self) -> bool {
        self.ty != ev::POINTER_MOTION
    }

    /// Whether the card's own rules could have produced this event.
    pub open spec fn valid(self) -> bool {
        if self.ty == ev::KEY_DOWN || self.ty == ev::KEY_UP {
            self.code <= MAX_RAW_KEYCODE && self.x == 0 && self.y == 0
        } else if self.ty == ev::BUTTON_DOWN || self.ty == ev::BUTTON_UP {
            self.code <= MAX_BUTTON && self.x == 0 && self.y == 0
        } else {
            self.ty == ev::POINTER_MOTION && self.code == 0 && in_range(self.x) && in_range(self.y)
        }
    }
}

/// Whether a coordinate fits the signed word a driver hands on.
pub open spec fn in_range(coordinate: i32) -> bool {
    i16::MIN <= coordinate <= i16::MAX
}

/// A coordinate as its 32-bit register shows it, sign-extended.
pub open spec fn coordinate_word(coordinate: i32) -> u32 {
    if coordinate >= 0 {
        coordinate as u32
    } else {
        (coordinate + 0x1_0000_0000) as u32
    }
}

/// Whether `i` is the position of the oldest queued motion.
pub open spec fn is_oldest_motion(events: Seq<QueuedEvent>, i: int) -> bool {
    &&& 0 <= i < events.len()
    &&& events[i].ty == ev::POINTER_MOTION
    &&& forall|j: int| 0 <= j < i ==> (#[trigger] events[j]).ty != ev::POINTER_MOTION
}

/// Whether any motion is queued.
pub open spec fn has_motion(events: Seq<QueuedEvent>) -> bool {
    exists|i: int| is_oldest_motion(events, i)
}

/// What the card holds.
#[verifier::ext_equal]
pub struct InputState {
    /// Queued events, oldest first.
    pub events: Seq<QueuedEvent>,
    pub overflow: u32,
    pub int_status: u8,
    pub int_enable: u8,
}

impl InputState {
    /// The queue fits, holds only events the card produces, and is never
    /// non-empty without the interrupt latched.
    pub open spec fn wf(self) -> bool {
        &&& self.events.len() <= QUEUE_CAPACITY
        &&& forall|i: int| 0 <= i < self.events.len() ==> (#[trigger] self.events[i]).valid()
        &&& self.events.len() > 0 ==> self.int_status != 0
    }

    /// Whether the card asserts its interrupt.
    pub open spec fn irq(self) -> bool {
        self.int_enable != 0 && self.int_status != 0
    }

    /// The event at the head of the queue.
    pub open spec fn head(self) -> QueuedEvent {
        if self.events.len() == 0 {
            QueuedEvent::none()
        } else {
            self.events[0]
        }
    }

    /// Whether a key or button event still finds a place.
    pub open spec fn accepts_discrete(self) -> bool {
        self.events.len() < QUEUE_CAPACITY || has_motion(self.events)
    }

    /// The card after a key or button event is pushed.
    pub open spec fn discrete_pushed(self, event: QueuedEvent) -> InputState {
        if self.events.len() < QUEUE_CAPACITY {
            InputState { events: self.events.push(event), int_status: 1, ..self }
        } else if has_motion(self.events) {
            let evicted = choose|i: int| is_oldest_motion(self.events, i);
            InputState {
                events: self.events.remove(evicted).push(event),
                int_status: 1,
                ..self
            }
        } else {
            InputState {
                overflow: if self.overflow == u32::MAX {
                    0
                } else {
                    (self.overflow + 1) as u32
                },
                int_status: 1,
                ..self
            }
        }
    }

    /// Whether the newest entry is a motion, which a further motion
    /// supersedes.
    pub open spec fn ends_in_motion(self) -> bool {
        self.events.len() > 0 && self.events.last().ty == ev::POINTER_MOTION
    }

    /// Whether a motion event still finds a place.
    pub open spec fn accepts_motion(self) -> bool {
        self.ends_in_motion() || self.events.len() < QUEUE_CAPACITY
    }

    /// The card after a motion event is pushed.
    pub open spec fn motion_pushed(self, event: QueuedEvent) -> InputState {
        if self.ends_in_motion() {
            InputState { events: self.events.drop_last().push(event), int_status: 1, ..self }
        } else if self.events.len() < QUEUE_CAPACITY {
            InputState { events: self.events.push(event), int_status: 1, ..self }
        } else {
            self
        }
    }

    /// What a read of the register file returns.
    pub open spec fn reg_read(self, offset: u32) -> u8 {
        if slot::holds(offset, reg::EVENT_TYPE) {
            slot::low_lane(offset, reg::EVENT_TYPE, self.head().ty)
        } else if slot::holds(offset, reg::EVENT_CODE) {
            slot::low_lane(offset, reg::EVENT_CODE, self.head().code)
        } else if slot::holds(offset, reg::EVENT_QUALIFIER) {
            be::byte_lane(self.head().qualifier as u32, offset - reg::EVENT_QUALIFIER)
        } else if slot::holds(offset, reg::EVENT_X) {
            be::byte_lane(coordinate_word(self.head().x), offset - reg::EVENT_X)
        } else if slot::holds(offset, reg::EVENT_Y) {
            be::byte_lane(coordinate_word(self.head().y), offset - reg::EVENT_Y)
        } else if slot::holds(offset, reg::EVENT_COUNT) {
            be::byte_lane(self.events.len() as u32, offset - reg::EVENT_COUNT)
        } else if slot::holds(offset, reg::EVENT_OVERFLOW) {
            be::byte_lane(self.overflow, offset - reg::EVENT_OVERFLOW)
        } else if slot::holds(offset, reg::INT_STATUS) {
            slot::low_lane(offset, reg::INT_STATUS, self.int_status)
        } else if slot::holds(offset, reg::INT_ENABLE) {
            slot::low_lane(offset, reg::INT_ENABLE, self.int_enable)
        } else if slot::holds(offset, reg::CAPACITY) {
            be::byte_lane(QUEUE_CAPACITY as u32, offset - reg::CAPACITY)
        } else if slot::holds(offset, reg::VERSION) {
            be::byte_lane(PROTOCOL_VERSION, offset - reg::VERSION)
        } else {
            0
        }
    }

    /// The card after a write to the register file. Only the low-order byte
    /// of a slot takes effect.
    pub open spec fn reg_written(self, offset: u32, value: u8) -> InputState {
        if offset == reg::EVENT_ADVANCE + 3 {
            InputState {
                events: if self.events.len() == 0 {
                    self.events
                } else {
                    self.events.drop_first()
                },
                ..self
            }
        } else if offset == reg::INT_STATUS + 3 {
            InputState {
                int_status: if value % 2 != 0 && self.events.len() == 0 {
                    0
                } else {
                    self.int_status
                },
                ..self
            }
        } else if offset == reg::INT_ENABLE + 3 {
            InputState { int_enable: value, ..self }
        } else {
            self
        }
    }
}

/// A fixed-capacity FIFO of events that can also be searched for motion.
pub struct EventQueue {
    ring: Ring<QueuedEvent, QUEUE_CAPACITY>,
}

impl View for EventQueue {
    type V = Seq<QueuedEvent>;

    closed spec fn view(&self) -> Seq<QueuedEvent> {
        self.ring@
    }
}

impl EventQueue {
    pub fn new() -> (queue: Self)
        ensures
            queue@ == Seq::<QueuedEvent>::empty(),
    {
        Self { ring: Ring::new(QueuedEvent { ty: ev::NONE, code: 0, qualifier: 0, x: 0, y: 0 }) }
    }

    pub fn len(&self) -> (len: usize)
        ensures
            len == self@.len(),
            len <= QUEUE_CAPACITY,
    {
        self.ring.len()
    }

    pub fn is_full(&self) -> (full: bool)
        ensures
            full == (self@.len() >= QUEUE_CAPACITY),
    {
        self.ring.is_full()
    }

    pub fn peek(&self) -> (event: Option<QueuedEvent>)
        ensures
            event == (if self@.len() == 0 {
                None
            } else {
                Some(self@[0])
            }),
    {
        self.ring.peek()
    }

    pub fn pop(&mut self) -> (event: Option<QueuedEvent>)
        ensures
            old(self)@.len() == 0 ==> event is None && final(self)@ == old(self)@,
            old(self)@.len() > 0 ==> event == Some(old(self)@[0]) && final(self)@
                == old(self)@.drop_first(),
    {
        self.ring.pop()
    }

    pub fn push_back(&mut self, event: QueuedEvent) -> (queued: bool)
        ensures
            queued == (old(self)@.len() < QUEUE_CAPACITY),
            old(self)@.len() <= QUEUE_CAPACITY,
            queued ==> final(self)@ == old(self)@.push(event),
            !queued ==> final(self)@ == old(self)@,
    {
        self.ring.push(event)
    }

    /// Position of the newest entry if it is a motion, for coalescing into.
    pub fn tail_motion_index(&self) -> (index: Option<usize>)
        ensures
            self@.len() <= QUEUE_CAPACITY,
            index == (if self@.len() > 0 && self@.last().ty == ev::POINTER_MOTION {
                Some((self@.len() - 1) as usize)
            } else {
                None
            }),
    {
        let len: usize = self.ring.len();
        if len > 0 && self.ring.at(len - 1).ty == ev::POINTER_MOTION {
            Some(len - 1)
        } else {
            None
        }
    }

    /// Position of the oldest queued motion, for eviction when a discrete
    /// event would otherwise be dropped.
    pub fn motion_index(&self) -> (index: Option<usize>)
        ensures
            match index {
                Some(i) => is_oldest_motion(self@, i as int),
                None => !has_motion(self@),
            },
    {
        let len: usize = self.ring.len();
        let mut i: usize = 0;
        while i < len
            invariant
                i <= len,
                len == self@.len(),
                self@ == self.ring@,
                forall|j: int| 0 <= j < i ==> (#[trigger] self@[j]).ty != ev::POINTER_MOTION,
            decreases len - i,
        {
            if self.ring.at(i).ty == ev::POINTER_MOTION {
                return Some(i);
            }
            i += 1;
        }
        None
    }

    pub fn overwrite(&mut self, index: usize, event: QueuedEvent)
        requires
            index < old(self)@.len(),
        ensures
            final(self)@ == old(self)@.update(index as int, event),
    {
        self.ring.set(index, event)
    }

    /// Remove the entry at `index`, shifting every later entry one place
    /// toward the head.
    pub fn remove(&mut self, index: usize)
        requires
            index < old(self)@.len(),
        ensures
            final(self)@ == old(self)@.remove(index as int),
    {
        self.ring.remove(index)
    }
}

/// The card's register file and event queue.
pub struct NativeInput {
    pub queue: EventQueue,
    pub overflow: u32,
    pub int_status: u8,
    pub int_enable: u8,
}

impl View for NativeInput {
    type V = InputState;

    open spec fn view(&self) -> InputState {
        InputState {
            events: self.queue@,
            overflow: self.overflow,
            int_status: self.int_status,
            int_enable: self.int_enable,
        }
    }
}

/// The oldest motion is unique.
pub(crate) proof fn lemma_oldest_motion(events: Seq<QueuedEvent>, i: int)
    requires
        is_oldest_motion(events, i),
    ensures
        has_motion(events),
        i == choose|k: int| is_oldest_motion(events, k),
{
    let k = choose|k: int| is_oldest_motion(events, k);
    if i < k {
        assert(events[i].ty == ev::POINTER_MOTION);
    } else if k < i {
        assert(events[k].ty == ev::POINTER_MOTION);
    }
}

impl NativeInput {
    pub fn new() -> (card: Self)
        ensures
            card@ == (InputState {
                events: Seq::empty(),
                overflow: 0,
                int_status: 0,
                int_enable: 0,
            }),
            card@.wf(),
    {
        Self { queue: EventQueue::new(), overflow: 0, int_status: 0, int_enable: 0 }
    }

    /// What this card registers on the AUTOCONFIG chain: one Zorro III
    /// board with no boot ROM.
    pub fn board_spec() -> (spec: BoardSpec)
        ensures
            spec == (BoardSpec {
                board_type: ERT_ZORROIII,
                product: PRODUCT,
                flags: ERFF_ZORRO_III | ERFF_EXTENDED,
                manufacturer: MANUFACTURER,
                serial: 0,
                init_diag_vec: 0,
                size_bytes: WINDOW_BYTES,
            }),
    {
        BoardSpec {
            board_type: ERT_ZORROIII,
            product: PRODUCT,
            flags: ERFF_ZORRO_III | ERFF_EXTENDED,
            manufacturer: MANUFACTURER,
            serial: 0,
            init_diag_vec: 0,
            size_bytes: WINDOW_BYTES,
        }
    }

    /// Whether the card is asserting its interrupt.
    pub fn irq_pending(&self) -> (asserted: bool)
        ensures
            asserted == self@.irq(),
    {
        self.int_enable != 0 && self.int_status != 0
    }

    /// Queue a key transition. A key code past [`MAX_RAW_KEYCODE`] is
    /// rejected with nothing touched.
    pub fn push_key(&mut self, keycode: u8, down: bool, qualifier: u16) -> (queued: bool)
        ensures
            keycode > MAX_RAW_KEYCODE ==> !queued && final(self)@ == old(self)@,
            keycode <= MAX_RAW_KEYCODE ==> queued == old(self)@.accepts_discrete() && final(self)@
                == old(self)@.discrete_pushed(
                QueuedEvent {
                    ty: if down {
                        ev::KEY_DOWN
                    } else {
                        ev::KEY_UP
                    },
                    code: keycode,
                    qualifier,
                    x: 0,
                    y: 0,
                },
            ),
            old(self)@.wf() ==> final(self)@.wf(),
    {
        if keycode > MAX_RAW_KEYCODE {
            return false;
        }
        let ty: u8 = if down {
            ev::KEY_DOWN
        } else {
            ev::KEY_UP
        };
        self.push_discrete(QueuedEvent { ty, code: keycode, qualifier, x: 0, y: 0 })
    }

    /// Queue a button transition. A button id past [`MAX_BUTTON`] is
    /// rejected with nothing touched.
    pub fn push_button(&mut self, button: u8, down: bool, qualifier: u16) -> (queued: bool)
        ensures
            button > MAX_BUTTON ==> !queued && final(self)@ == old(self)@,
            button <= MAX_BUTTON ==> queued == old(self)@.accepts_discrete() && final(self)@
                == old(self)@.discrete_pushed(
                QueuedEvent {
                    ty: if down {
                        ev::BUTTON_DOWN
                    } else {
                        ev::BUTTON_UP
                    },
                    code: button,
                    qualifier,
                    x: 0,
                    y: 0,
                },
            ),
            old(self)@.wf() ==> final(self)@.wf(),
    {
        if button > MAX_BUTTON {
            return false;
        }
        let ty: u8 = if down {
            ev::BUTTON_DOWN
        } else {
            ev::BUTTON_UP
        };
        self.push_discrete(QueuedEvent { ty, code: button, qualifier, x: 0, y: 0 })
    }

    /// Queue an absolute pointer position. Coordinates outside the signed
    /// 16-bit range are rejected with nothing touched; so is a position that
    /// finds the queue full, which no counter records.
    pub fn push_pointer_motion(&mut self, x: i32, y: i32, qualifier: u16) -> (queued: bool)
        ensures
            !(in_range(x) && in_range(y)) ==> !queued && final(self)@ == old(self)@,
            in_range(x) && in_range(y) ==> queued == old(self)@.accepts_motion() && final(self)@
                == old(self)@.motion_pushed(
                QueuedEvent { ty: ev::POINTER_MOTION, code: 0, qualifier, x, y },
            ),
            old(self)@.wf() ==> final(self)@.wf(),
    {
        if x < -32768 || x > 32767 || y < -32768 || y > 32767 {
            return false;
        }
        let event = QueuedEvent { ty: ev::POINTER_MOTION, code: 0, qualifier, x, y };
        match self.queue.tail_motion_index() {
            Some(index) => {
                self.queue.overwrite(index, event);
                assert(self.queue@ =~= old(self).queue@.drop_last().push(event));
            },
            None => {
                if !self.queue.push_back(event) {
                    return false;
                }
            },
        }
        self.int_status = 1;
        true
    }

    /// Append a key or button event, evicting a queued motion first if the
    /// queue is full, and dropping and counting the event only if there is
    /// none to evict.
    fn push_discrete(&mut self, event: QueuedEvent) -> (queued: bool)
        ensures
            queued == old(self)@.accepts_discrete(),
            final(self)@ == old(self)@.discrete_pushed(event),
            old(self)@.wf() && event.valid() ==> final(self)@.wf(),
    {
        if !self.queue.push_back(event) {
            match self.queue.motion_index() {
                Some(index) => {
                    proof {
                        lemma_oldest_motion(old(self).queue@, index as int);
                    }
                    self.queue.remove(index);
                    let _ = self.queue.push_back(event);
                },
                None => {
                    self.overflow = self.overflow.wrapping_add(1);
                    self.int_status = 1;
                    return false;
                },
            }
        }
        self.int_status = 1;
        true
    }

    /// Read a byte of the register file, offset from this board's configured
    /// AUTOCONFIG base. Anything not named in [`reg`] reads `0`.
    pub fn read(&self, offset: u32) -> (value: u8)
        ensures
            value == self@.reg_read(offset),
    {
        let head = match self.queue.peek() {
            Some(event) => event,
            None => QueuedEvent { ty: ev::NONE, code: 0, qualifier: 0, x: 0, y: 0 },
        };
        if slot::in_slot(offset, reg::EVENT_TYPE) {
            slot::low_byte(offset, reg::EVENT_TYPE, head.ty)
        } else if slot::in_slot(offset, reg::EVENT_CODE) {
            slot::low_byte(offset, reg::EVENT_CODE, head.code)
        } else if slot::in_slot(offset, reg::EVENT_QUALIFIER) {
            be::byte_of(head.qualifier as u32, offset - reg::EVENT_QUALIFIER)
        } else if slot::in_slot(offset, reg::EVENT_X) {
            be::byte_of(sign_extended(head.x), offset - reg::EVENT_X)
        } else if slot::in_slot(offset, reg::EVENT_Y) {
            be::byte_of(sign_extended(head.y), offset - reg::EVENT_Y)
        } else if slot::in_slot(offset, reg::EVENT_COUNT) {
            be::byte_of(self.queue.len() as u32, offset - reg::EVENT_COUNT)
        } else if slot::in_slot(offset, reg::EVENT_OVERFLOW) {
            be::byte_of(self.overflow, offset - reg::EVENT_OVERFLOW)
        } else if slot::in_slot(offset, reg::INT_STATUS) {
            slot::low_byte(offset, reg::INT_STATUS, self.int_status)
        } else if slot::in_slot(offset, reg::INT_ENABLE) {
            slot::low_byte(offset, reg::INT_ENABLE, self.int_enable)
        } else if slot::in_slot(offset, reg::CAPACITY) {
            be::byte_of(QUEUE_CAPACITY as u32, offset - reg::CAPACITY)
        } else if slot::in_slot(offset, reg::VERSION) {
            be::byte_of(PROTOCOL_VERSION, offset - reg::VERSION)
        } else {
            0
        }
    }

    /// Write a byte of the register file. Acknowledging the interrupt while
    /// events remain unread is ignored.
    pub fn write(&mut self, offset: u32, value: u8)
        ensures
            final(self)@ == old(self)@.reg_written(offset, value),
            old(self)@.wf() ==> final(self)@.wf(),
    {
        if offset == reg::EVENT_ADVANCE + 3 {
            let _ = self.queue.pop();
        } else if offset == reg::INT_STATUS + 3 {
            if value % 2 != 0 && self.queue.len() == 0 {
                self.int_status = 0;
            }
        } else if offset == reg::INT_ENABLE + 3 {
            self.int_enable = value;
        }
    }
}

impl Default for NativeInput {
    fn default() -> (card: Self)
        ensures
            card@ == (InputState {
                events: Seq::empty(),
                overflow: 0,
                int_status: 0,
                int_enable: 0,
            }),
    {
        Self::new()
    }
}

/// A coordinate as a sign-extended 32-bit word.
fn sign_extended(coordinate: i32) -> (word: u32)
    ensures
        word == coordinate_word(coordinate),
{
    if coordinate >= 0 {
        coordinate as u32
    } else {
        (coordinate as i64 + 0x1_0000_0000) as u32
    }
}

} // verus!
