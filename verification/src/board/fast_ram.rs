//! How much fast RAM to ask the firmware for.
//!
//! A board prefers the machine's declared size, but a boot-time allocator may
//! not have that many pages free this early, and less fast RAM is still a
//! useful machine. So a refused request is halved, down to a floor, and the
//! outcome is reported whatever it is.

use crate::board::text;
use vstd::prelude::*;

verus! {

/// Preferred fast RAM size.
pub const PREFERRED_MB: u32 = 256;

/// Below this a board is not worth an AUTOCONFIG slot.
pub const FLOOR_MB: u32 = 1;

/// The memory granted, if any, and how it compares to what was asked for.
pub struct FastRam {
    pub mem: Option<&'static mut [u8]>,
    pub requested_mb: u32,
    pub got_mb: u32,
}

/// The request that follows a refused one: half of it, but not below the
/// floor, and none after the floor itself.
pub open spec fn request_after(size_mb: u32) -> Option<u32> {
    if size_mb <= FLOOR_MB {
        None
    } else if size_mb / 2 < FLOOR_MB {
        Some(FLOOR_MB)
    } else {
        Some(size_mb / 2)
    }
}

/// The request made after `refusals` refusals, if it comes to that.
pub open spec fn nth_request(refusals: nat) -> Option<u32>
    decreases refusals,
{
    if refusals == 0 {
        Some(PREFERRED_MB)
    } else {
        match nth_request((refusals - 1) as nat) {
            Some(size_mb) => request_after(size_mb),
            None => None,
        }
    }
}

/// What to ask for after a request for `size_mb` was refused, or `None` to
/// go without.
pub fn next_request(size_mb: u32) -> (next: Option<u32>)
    ensures
        next == request_after(size_mb),
{
    if size_mb > FLOOR_MB {
        let half: u32 = size_mb / 2;
        if half < FLOOR_MB {
            Some(FLOOR_MB)
        } else {
            Some(half)
        }
    } else {
        None
    }
}

/// How many pages of `page_size` bytes hold `size_mb` megabytes.
pub fn pages_for(size_mb: u32, page_size: usize) -> (pages: usize)
    requires
        page_size > 0,
        size_mb * 1048576 <= usize::MAX,
    ensures
        pages * page_size >= size_mb * 1048576,
        pages > 0 ==> (pages - 1) * page_size < size_mb * 1048576,
        pages == 0 <==> size_mb == 0,
{
    let bytes: usize = size_mb as usize * 1048576;
    let whole: usize = bytes / page_size;
    proof {
        vstd::arithmetic::div_mod::lemma_fundamental_div_mod(bytes as int, page_size as int);
        vstd::arithmetic::div_mod::lemma_mod_bound(bytes as int, page_size as int);
        vstd::arithmetic::mul::lemma_mul_is_commutative(page_size as int, whole as int);
        assert((whole + 1) * page_size == whole * page_size + page_size) by (nonlinear_arith);
        assert((whole - 1) * page_size == whole * page_size - page_size) by (nonlinear_arith);
        assert(whole < usize::MAX || bytes % page_size == 0) by (nonlinear_arith)
            requires
                bytes == page_size * whole + bytes % page_size,
                bytes <= usize::MAX,
                page_size > 0,
        ;
        if whole == 0 {
            assert(whole * page_size == 0) by (nonlinear_arith)
                requires
                    whole == 0,
            ;
        }
    }
    if bytes % page_size == 0 {
        whole
    } else {
        whole + 1
    }
}

impl FastRam {
    /// The outcome of a request for `size_mb` that was granted `mem`.
    pub fn granted(mem: &'static mut [u8], size_mb: u32) -> (ram: Self)
        ensures
            ram.mem is Some,
            ram.mem->0@ == old(mem)@,
            final(ram.mem->0)@ == final(mem)@,
            ram.requested_mb == PREFERRED_MB,
            ram.got_mb == size_mb,
    {
        FastRam { mem: Some(mem), requested_mb: PREFERRED_MB, got_mb: size_mb }
    }

    /// The outcome when even the floor was refused.
    pub fn refused() -> (ram: Self)
        ensures
            ram.mem is None,
            ram.requested_mb == PREFERRED_MB,
            ram.got_mb == 0,
    {
        FastRam { mem: None, requested_mb: PREFERRED_MB, got_mb: 0 }
    }

    /// One line saying what was allocated.
    pub fn describe(&self) -> (line: String)
        ensures
            line@ == (if self.mem is None {
                "fast RAM: none -- boot services could not satisfy even a "@ + text::decimal(
                    FLOOR_MB as nat,
                ) + " MB request -- continuing with chip RAM only"@
            } else if self.got_mb == self.requested_mb {
                "fast RAM: "@ + text::decimal(self.got_mb as nat)
                    + " MB allocated from boot services"@
            } else {
                "fast RAM: "@ + text::decimal(self.got_mb as nat)
                    + " MB allocated from boot services (wanted "@ + text::decimal(
                    self.requested_mb as nat,
                ) + " MB; halved down until an allocation succeeded)"@
            }),
    {
        if self.mem.is_none() {
            let mut line = "fast RAM: none -- boot services could not satisfy even a ".to_owned();
            text::push_decimal(&mut line, FLOOR_MB as u64);
            line.append(" MB request -- continuing with chip RAM only");
            return line;
        }
        let mut line = "fast RAM: ".to_owned();
        text::push_decimal(&mut line, self.got_mb as u64);
        if self.got_mb == self.requested_mb {
            line.append(" MB allocated from boot services");
        } else {
            line.append(" MB allocated from boot services (wanted ");
            text::push_decimal(&mut line, self.requested_mb as u64);
            line.append(" MB; halved down until an allocation succeeded)");
        }
        line
    }
}

/// Requests halve from the preferred size down to the floor, nine in all,
/// and then stop.
pub proof fn requests_halve_to_the_floor(refusals: nat)
    ensures
        nth_request(0) == Some(PREFERRED_MB),
        refusals < 8 ==> nth_request(refusals) is Some && nth_request(refusals + 1) is Some
            && nth_request(refusals)->0 == 2 * nth_request(refusals + 1)->0,
        refusals > 8 ==> nth_request(refusals) is None,
        nth_request(8) == Some(FLOOR_MB),
    decreases refusals,
{
    reveal_with_fuel(nth_request, 10);
    if refusals > 9 {
        requests_halve_to_the_floor((refusals - 1) as nat);
    }
}

} // verus!
