//! ATA commands.

use vstd::prelude::*;

verus! {

pub const READ_SECTORS: u8 = 0x20;

pub const READ_SECTORS_NR: u8 = 0x21;

pub const WRITE_SECTORS: u8 = 0x30;

pub const WRITE_SECTORS_NR: u8 = 0x31;

pub const IDENTIFY: u8 = 0xEC;

pub const INIT_PARAMS: u8 = 0x91;

pub const SET_FEATURES: u8 = 0xEF;

} // verus!
