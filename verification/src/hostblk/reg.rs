//! Register offsets within the card's AUTOCONFIG window. Every single-byte
//! value lives in the low-order byte of its 4-byte-aligned slot, the other
//! three lanes reserved.

use vstd::prelude::*;

verus! {

/// Select which unit the discovery registers below describe. Does not
/// affect an in-flight or queued transfer, which carries its own unit
/// number in its descriptor.
pub const UNIT_SELECT: u32 = 0x00;

/// `1` if the selected unit is attached, `0` otherwise. Read-only.
pub const UNIT_PRESENT: u32 = 0x04;

/// `1` if the selected unit is write-protected. Read-only; `0` when the
/// unit is absent.
pub const UNIT_WRITE_PROTECT: u32 = 0x08;

/// The selected unit's media-change counter. Read-only; `0` for an absent
/// unit.
pub const UNIT_CHANGE_COUNT: u32 = 0x0C;

/// High 32 bits of the selected unit's sector count. Read-only.
pub const UNIT_SECTORS_HI: u32 = 0x10;

/// Low 32 bits of the selected unit's sector count. Read-only.
pub const UNIT_SECTORS_LO: u32 = 0x14;

/// Write the address of a descriptor here to submit it. Reads `0`.
pub const DOORBELL: u32 = 0x18;

/// Free-running count of doorbell writes dropped because the submission
/// ring was full. Read-only, never resets.
pub const SUBMIT_OVERFLOW: u32 = 0x1C;

/// The address supplied at [`DOORBELL`] for the completion queue's head
/// entry, or `0` if the queue is empty. Read-only.
pub const COMPLETION_PTR: u32 = 0x20;

/// The head entry's error code. Read-only; meaningless while
/// [`COMPLETION_PTR`] reads `0`.
pub const COMPLETION_ERROR: u32 = 0x24;

/// The head entry's residue/actual byte count. Read-only.
pub const COMPLETION_ACTUAL: u32 = 0x28;

/// Any write pops the completion queue's head entry, revealing the next one
/// (or emptying it). Write-only.
pub const COMPLETION_ADVANCE: u32 = 0x2C;

/// How many completions are currently queued. Read-only.
pub const COMPLETION_COUNT: u32 = 0x30;

/// Non-zero enables raising INT2 while the completion queue is non-empty.
pub const INT_ENABLE: u32 = 0x34;

/// Depth of the submission ring, in descriptors. Read-only. A doorbell
/// write past it is dropped, so a driver limits itself to this depth.
pub const SUBMIT_CAPACITY: u32 = 0x38;

/// Protocol version. Read-only.
pub const VERSION: u32 = 0x3C;

} // verus!
