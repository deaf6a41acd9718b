//! A bump heap: offsets into a fixed arena, handed out in increasing order
//! and never reclaimed.

use vstd::prelude::*;

verus! {

/// Heap arena size.
pub const HEAP_SIZE: usize = 262144;

/// The lowest multiple of `align` not below `address`.
pub open spec fn aligned(address: int, align: int) -> int {
    if address % align == 0 {
        address
    } else {
        address + align - address % align
    }
}

/// Where an allocation of `size` bytes aligned to `align` goes in an arena
/// at address `base` whose first `current` bytes are taken: its start and
/// end offsets, or `None` if it does not fit.
pub fn place(base: usize, current: usize, size: usize, align: usize) -> (placed: Option<(
    usize,
    usize,
)>)
    requires
        align > 0,
        aligned(base + current, align as int) <= usize::MAX,
        aligned(base + current, align as int) - base + size <= usize::MAX,
    ensures
        ({
            let start = aligned(base + current, align as int) - base;
            placed == if start + size > HEAP_SIZE {
                None
            } else {
                Some((start as usize, (start + size) as usize))
            }
        }),
{
    let address: usize = base + current;
    let rest: usize = address % align;
    proof {
        vstd::arithmetic::div_mod::lemma_mod_bound(address as int, align as int);
    }
    let start: usize = if rest == 0 {
        current
    } else {
        current + (align - rest)
    };
    let end: usize = start + size;
    if end > HEAP_SIZE {
        None
    } else {
        Some((start, end))
    }
}

/// A placed allocation starts at a multiple of its alignment, behind
/// everything taken before it, and by less than its alignment further on
/// than it had to.
pub proof fn placement_is_aligned_and_disjoint(base: int, current: int, align: int)
    requires
        align > 0,
        base + current >= 0,
    ensures
        aligned(base + current, align) % align == 0,
        current <= aligned(base + current, align) - base < current + align,
{
    let address = base + current;
    vstd::arithmetic::div_mod::lemma_mod_bound(address, align);
    vstd::arithmetic::div_mod::lemma_fundamental_div_mod(address, align);
    if address % align != 0 {
        let q = address / align + 1;
        assert(aligned(address, align) == align * q) by (nonlinear_arith)
            requires
                address == align * (address / align) + address % align,
                aligned(address, align) == address + align - address % align,
                q == address / align + 1,
        ;
        vstd::arithmetic::div_mod::lemma_mod_multiples_basic(q, align);
        vstd::arithmetic::mul::lemma_mul_is_commutative(align, q);
    }
}

} // verus!
