//! Register indices worth naming, within their respective index spaces.

use vstd::prelude::*;

verus! {

/// Sequencer: the Cirrus lock register. Writing the unlock code arms the
/// extended registers (sequencer index > 6, CRTC index > `0x18`,
/// graphics-controller index > 8); anything else re-locks them.
pub const SR_LOCK: u8 = 0x06;

pub const SR_LOCK_UNLOCKED: u8 = 0x12;

pub const SR_LOCK_LOCKED: u8 = 0x0F;

pub const SR_LOCK_UNLOCK_MASK: u8 = 0x17;

/// Extended Sequencer Mode: bit 0 gates the packed-pixel path; bits 1-3
/// select depth when the hidden DAC is in its "extended" state.
pub const SR_EXTENDED_MODE: u8 = 0x07;

/// Graphics Cursor Attribute register.
pub const SR_CURSOR_ATTR: u8 = 0x12;

/// CRTC: the read-only chip-ID register the RTG driver identifies the
/// silicon by.
pub const CRTC_ID: u8 = 0x27;

pub const CRTC_LAST_STANDARD: u8 = 0x18;

/// End Vertical Retrace register; bits 4-5 gate the vertical-retrace
/// interrupt.
pub const CRTC_END_VERTICAL_RETRACE: u8 = 0x11;

/// Blit width, in bytes, minus one, low 8 bits; the next register holds
/// bits 8-10.
pub const GR_BLIT_WIDTH_LO: u8 = 0x20;

/// Blit height, in rows, minus one, low 8 bits; the next register holds
/// bits 8-9.
pub const GR_BLIT_HEIGHT_LO: u8 = 0x22;

/// Destination pitch, low 8 bits; the next register holds bits 8-12.
pub const GR_BLIT_DST_PITCH_LO: u8 = 0x24;

/// Source pitch, same shape as the destination pitch.
pub const GR_BLIT_SRC_PITCH_LO: u8 = 0x26;

/// Destination address, 21 bits across three consecutive registers.
pub const GR_BLIT_DST_ADDR_LO: u8 = 0x28;

/// Source address, same shape as the destination address.
pub const GR_BLIT_SRC_ADDR_LO: u8 = 0x2C;

/// Blit mode flags.
pub const GR_BLIT_MODE: u8 = 0x30;

/// Start trigger / busy status.
pub const GR_BLIT_START_STATUS: u8 = 0x31;

/// Raster operation code.
pub const GR_BLIT_ROP: u8 = 0x32;

/// Extended mode flags.
pub const GR_BLIT_MODE_EXT: u8 = 0x33;

/// Transparency compare colour, one byte per pixel component.
pub const GR_BLIT_TRANSPARENT_COMPARE: u8 = 0x34;

/// Transparency compare mask, one byte per pixel component; a set mask bit
/// means "don't care" for that bit of the comparison.
pub const GR_BLIT_TRANSPARENT_MASK: u8 = 0x38;

/// Background and foreground colour, one register pair per pixel component
/// (byte lane), used by solid fill and colour expansion.
pub const GR_BG0: u8 = 0x00;

pub const GR_FG0: u8 = 0x01;

pub const GR_BG1: u8 = 0x10;

pub const GR_FG1: u8 = 0x11;

pub const GR_BG2: u8 = 0x12;

pub const GR_FG2: u8 = 0x13;

pub const GR_BG3: u8 = 0x14;

pub const GR_FG3: u8 = 0x15;

} // verus!
