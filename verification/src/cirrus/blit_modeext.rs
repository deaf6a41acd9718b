//! Extended blit mode register (GR33) bit flags.

use vstd::prelude::*;

verus! {

/// Colour-expand source bits are grouped into 32-bit words rather than 8-bit
/// bytes (changes the row-padding granularity).
pub const DWORD_GRANULARITY: u8 = 0x01;

/// Invert which polarity of an expanded bit is "transparent".
pub const COLOR_EXPAND_INVERT: u8 = 0x02;

/// Colour-expand every source bit as foreground: together with the pattern
/// and colour-expand modes this paints the whole rectangle the foreground
/// colour, ignoring the pattern tile entirely.
pub const SOLID_FILL: u8 = 0x04;

} // verus!
