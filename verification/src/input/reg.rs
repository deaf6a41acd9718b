//! Register offsets within this card's AUTOCONFIG window.

use vstd::prelude::*;

verus! {

/// Head event's type, `0` while the queue is empty.
pub const EVENT_TYPE: u32 = 0x00;

/// Raw key code or button id; `0` for pointer motion.
pub const EVENT_CODE: u32 = 0x04;

/// Qualifier mask, low 16 bits meaningful.
pub const EVENT_QUALIFIER: u32 = 0x08;

/// Absolute X, sign-extended.
pub const EVENT_X: u32 = 0x0C;

/// Absolute Y, sign-extended.
pub const EVENT_Y: u32 = 0x10;

/// Any write pops the head event.
pub const EVENT_ADVANCE: u32 = 0x14;

/// Entries currently queued.
pub const EVENT_COUNT: u32 = 0x18;

/// Free-running count of dropped key and button events.
pub const EVENT_OVERFLOW: u32 = 0x1C;

/// The interrupt latch: write 1 to clear, once the queue is empty.
pub const INT_STATUS: u32 = 0x20;

/// Non-zero lets the latch reach INT2.
pub const INT_ENABLE: u32 = 0x24;

/// Queue depth in events.
pub const CAPACITY: u32 = 0x28;

/// Protocol version.
pub const VERSION: u32 = 0x2C;

} // verus!
