//! Blit mode register (GR30) bit flags.

use vstd::prelude::*;

verus! {

/// Descending (decrementing) addresses instead of ascending.
pub const BACKWARDS: u8 = 0x01;

/// Source comes from the host CPU pushing bytes through the VRAM aperture
/// rather than from VRAM itself.
pub const SYSTEM_SOURCE: u8 = 0x04;

/// Source pixels matching the transparency-compare colour are skipped
/// (destination left unwritten) instead of blended by the ROP.
pub const TRANSPARENT: u8 = 0x08;

/// Mask for the pixel-width field: `0x00`/`0x10`/`0x20`/`0x30` for 1/2/3/4
/// bytes per pixel.
pub const PIXEL_WIDTH_MASK: u8 = 0x30;

/// Source is an 8x8 tile read once and repeated, rather than a linear scan.
pub const PATTERN: u8 = 0x40;

/// Source is a monochrome bit stream: each bit selects the foreground or
/// background colour for one pixel.
pub const COLOR_EXPAND: u8 = 0x80;

} // verus!
