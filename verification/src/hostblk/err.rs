//! Completion error codes. `0` is success; everything else is a specific,
//! named failure a driver can act on.

use vstd::prelude::*;

verus! {

/// Completed with no error.
pub const OK: u8 = 0;

/// The unit named in the descriptor is out of range or not attached.
pub const BAD_UNIT: u8 = 1;

/// A `WRITE` against a write-protected unit.
pub const WRITE_PROTECTED: u8 = 2;

/// The command is none of `READ`/`WRITE`/`FLUSH`.
pub const INVALID_COMMAND: u8 = 3;

/// The length is `0`, or not a multiple of the sector size.
pub const INVALID_LENGTH: u8 = 4;

/// The offset is not a multiple of the sector size.
pub const MISALIGNED: u8 = 5;

/// The transfer would run past the unit's last sector.
pub const OUT_OF_RANGE: u8 = 6;

/// The descriptor pointer, or the buffer it names, does not lie entirely
/// inside guest RAM (or the descriptor pointer is misaligned).
pub const BAD_ADDRESS: u8 = 7;

/// The device reported a failure partway through the transfer; the
/// completion entry reports how many whole sectors landed first.
pub const IO_ERROR: u8 = 8;

} // verus!
