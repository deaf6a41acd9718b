//! Blit start/status register (GR31) bit flags.

use vstd::prelude::*;

verus! {

/// Write 1 to arm and, for anything but a system-source blit, run the
/// transfer immediately (this engine is synchronous).
pub const START: u8 = 0x02;

/// Write 1 to abandon a pending (system-source) transfer.
pub const RESET: u8 = 0x04;

/// The bits a status read shows set while a system-source transfer is still
/// waiting on host data.
pub const BUSY_MASK: u8 = 0x09;

} // verus!
