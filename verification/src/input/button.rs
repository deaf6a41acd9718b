//! Button ids: this card's own small dense numbering.

use vstd::prelude::*;

verus! {

pub const LEFT: u8 = 0;

pub const RIGHT: u8 = 1;

pub const MIDDLE: u8 = 2;

} // verus!
