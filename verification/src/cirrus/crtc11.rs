//! End Vertical Retrace register (CR11) bit flags: standard VGA, not a
//! Cirrus extension, so they apply even before the extended registers are
//! unlocked.

use vstd::prelude::*;

verus! {

/// Bit 4, active low: write 0 to acknowledge (clear) a latched
/// vertical-retrace interrupt. While it reads 0 the interrupt stays masked,
/// so a driver re-arms by writing it back to 1.
pub const CLEAR_VERTICAL_INTERRUPT: u8 = 0x10;

/// Bit 5: 1 disables the vertical-retrace interrupt, 0 enables it. Together
/// with bit 4, "enabled" is bits 5:4 == `0b01`, so the all-zero reset value
/// reads as disabled.
pub const DISABLE_VERTICAL_INTERRUPT: u8 = 0x20;

} // verus!
