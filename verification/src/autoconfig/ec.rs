//! Offsets within the configuration window, in physical byte terms.

use vstd::prelude::*;

verus! {

/// Zorro III base address, written as a word.
pub const Z3_BASEADDRESS: u32 = 0x44;

/// Zorro II base address, high byte.
pub const BASEADDRESS: u32 = 0x48;

/// Zorro II base address, low byte.
pub const BASEADDRESS_LO: u32 = 0x4A;

/// Retire this board without assigning it space.
pub const SHUTUP: u32 = 0x4C;

} // verus!
