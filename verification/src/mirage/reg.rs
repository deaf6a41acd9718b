//! Register offsets, four bytes apart.

use vstd::prelude::*;

verus! {

pub const UNIT_SELECT: u32 = 0x00;

pub const LBA: u32 = 0x04;

pub const COUNT: u32 = 0x08;

pub const CMD_STATUS: u32 = 0x0C;

pub const DATA: u32 = 0x10;

pub const INT_ENABLE: u32 = 0x18;

pub const INT_STATUS: u32 = 0x1C;

} // verus!
