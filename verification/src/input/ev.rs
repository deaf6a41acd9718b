//! Event types.

use vstd::prelude::*;

verus! {

/// The queue is empty.
pub const NONE: u8 = 0;

pub const KEY_DOWN: u8 = 1;

pub const KEY_UP: u8 = 2;

/// Absolute pointer position.
pub const POINTER_MOTION: u8 = 3;

pub const BUTTON_DOWN: u8 = 4;

pub const BUTTON_UP: u8 = 5;

} // verus!
