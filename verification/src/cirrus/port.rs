//! Byte offsets within the register window, equal to the ISA VGA port
//! numbers they carry.
//!
//! Where two ports alias one register on real VGA (the CRTC and Input
//! Status 1 each have a mono- and a colour-adapter address), both are
//! honoured identically.

use vstd::prelude::*;

verus! {

/// Write: misc output; read: input status 0.
pub const MISC_OUTPUT: u32 = 0x3C2;

pub const SEQ_INDEX: u32 = 0x3C4;

pub const SEQ_DATA: u32 = 0x3C5;

/// Pixel mask; reads of it also lead to the Cirrus hidden DAC register.
pub const PEL_MASK: u32 = 0x3C6;

/// Write: read index; read: DAC state.
pub const DAC_READ_INDEX: u32 = 0x3C7;

pub const DAC_WRITE_INDEX: u32 = 0x3C8;

pub const DAC_DATA: u32 = 0x3C9;

pub const MISC_OUTPUT_READ: u32 = 0x3CC;

pub const GR_INDEX: u32 = 0x3CE;

pub const GR_DATA: u32 = 0x3CF;

pub const AC_INDEX_DATA: u32 = 0x3C0;

pub const AC_DATA_READ: u32 = 0x3C1;

pub const CRTC_INDEX_MONO: u32 = 0x3B4;

pub const CRTC_DATA_MONO: u32 = 0x3B5;

pub const CRTC_INDEX_COLOR: u32 = 0x3D4;

pub const CRTC_DATA_COLOR: u32 = 0x3D5;

pub const INPUT_STATUS_1_MONO: u32 = 0x3BA;

pub const INPUT_STATUS_1_COLOR: u32 = 0x3DA;

} // verus!
