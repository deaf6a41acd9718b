//! Longword register slots: the layout every native card's registers share.
//!
//! Each register owns a 4-byte-aligned slot. A single-byte register lives in
//! the low-order byte of its slot, where a longword access of a small
//! constant naturally lands it, and the other three bytes read zero.

use vstd::prelude::*;

verus! {

/// Whether `offset` falls in the slot starting at `base`.
pub open spec fn holds(offset: u32, base: u32) -> bool {
    base <= offset < base + 4
}

/// A single-byte register as its slot shows it.
pub open spec fn low_lane(offset: u32, base: u32, value: u8) -> u8 {
    if offset == base + 3 {
        value
    } else {
        0
    }
}

/// Whether `offset` falls in the 4-byte-aligned slot starting at `base`.
pub fn in_slot(offset: u32, base: u32) -> (inside: bool)
    requires
        base <= u32::MAX - 4,
    ensures
        inside == holds(offset, base),
{
    base <= offset && offset < base + 4
}

/// A single-byte register's value at offset `base + 3`, `0` everywhere else
/// from `base` on.
pub fn low_byte(offset: u32, base: u32, value: u8) -> (byte: u8)
    requires
        base <= offset,
    ensures
        byte == low_lane(offset, base, value),
{
    if offset - base == 3 {
        value
    } else {
        0
    }
}

} // verus!
