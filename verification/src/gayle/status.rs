//! ATA status register bits.

use vstd::prelude::*;

verus! {

pub const ERR: u8 = 0x01;

pub const DRQ: u8 = 0x08;

pub const DSC: u8 = 0x10;

pub const DRDY: u8 = 0x40;

pub const BSY: u8 = 0x80;

} // verus!
