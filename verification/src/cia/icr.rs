//! ICR bit numbers.

use vstd::prelude::*;

verus! {

pub const TA: u8 = 0;

pub const TB: u8 = 1;

pub const ALRM: u8 = 2;

pub const SP: u8 = 3;

pub const FLG: u8 = 4;

/// Read-back only: set when any enabled source is requesting.
pub const IR: u8 = 7;

/// Write-only set/clear control, same convention as the custom chips.
pub const SETCLR: u8 = 7;

} // verus!
