//! Graphics cursor attribute register (SR12) bit flags.

use vstd::prelude::*;

verus! {

/// When set, DAC data accesses address the hardware cursor's private colour
/// table instead of the main 256-entry palette.
pub const CURSOR_PALETTE_SELECT: u8 = 0x02;

} // verus!
