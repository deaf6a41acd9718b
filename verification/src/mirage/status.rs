//! `CMD_STATUS`'s read side.

use vstd::prelude::*;

verus! {

pub const BUSY: u8 = 0x01;

pub const DRQ: u8 = 0x02;

pub const ERR: u8 = 0x04;

} // verus!
