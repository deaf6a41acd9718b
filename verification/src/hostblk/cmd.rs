//! Descriptor commands.

use vstd::prelude::*;

verus! {

pub const READ: u8 = 1;

pub const WRITE: u8 = 2;

/// A no-op handshake: write completion is not durability, and there is
/// nothing underneath to flush.
pub const FLUSH: u8 = 3;

} // verus!
