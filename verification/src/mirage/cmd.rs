//! `CMD_STATUS`'s write side.

use vstd::prelude::*;

verus! {

pub const READ: u8 = 1;

pub const WRITE: u8 = 2;

pub const FLUSH: u8 = 3;

} // verus!
