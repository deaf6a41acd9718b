//! Word-level building blocks of a blit: chip RAM access, the minterm, the
//! barrel shifter, the fill sequencer and rotation.

use crate::be;
use crate::CHIP_RAM_SIZE;
use vstd::prelude::*;

verus! {

/// Bit `i` of a word.
pub open spec fn bit(value: u16, i: u16) -> bool {
    (value >> i) & 1 == 1
}

/// Facts about single bits of 16-bit words, for every pair of positions.
proof fn lemma_single_bits(x: u16, d: u16, i: u16, j: u16)
    by (bit_vector)
    requires
        i < 16,
        j < 16,
    ensures
        ((x | (1u16 << i)) >> j) & 1 == (if i == j { 1u16 } else { (x >> j) & 1 }),
        ((x ^ (1u16 << i)) >> j) & 1 == (if i == j { 1u16 ^ ((x >> j) & 1) } else { (x >> j) & 1 }),
        ((d & (1u16 << i)) != 0) == ((d >> i) & 1 == 1),
        ((x >> j) & 1) == 0 || ((x >> j) & 1) == 1,
        1u16 ^ ((x >> j) & 1) == (if (x >> j) & 1 == 1 { 0u16 } else { 1u16 }),
{
}

/// The chip RAM offset a channel pointer addresses: the pointer's low 21
/// bits with bit 0 cleared.
pub open spec fn word_addr(ptr: u32) -> int {
    (ptr & 0x001F_FFFE) as int
}

/// Every pointer addresses a whole, word-aligned word of chip RAM, which
/// repeats every two megabytes, and a pointer that already does is used as it
/// is.
pub proof fn word_addr_lands_in_chip_ram(ptr: u32)
    ensures
        0 <= word_addr(ptr),
        word_addr(ptr) + 1 < CHIP_RAM_SIZE,
        word_addr(ptr) % 2 == 0,
        ptr < CHIP_RAM_SIZE && ptr % 2 == 0 ==> word_addr(ptr) == ptr,
        word_addr(ptr) == ptr % 0x20_0000 - ptr % 2,
{
    assert(ptr & 0x001F_FFFE <= 0x001F_FFFE && (ptr & 0x001F_FFFE) % 2 == 0 && (ptr < 0x0020_0000
        && ptr % 2 == 0 ==> ptr & 0x001F_FFFE == ptr) && ptr & 0x001F_FFFE == ptr % 0x0020_0000
        - ptr % 2) by (bit_vector);
}

/// The big-endian word of chip RAM that `ptr` addresses.
pub open spec fn word_at(ram: Seq<u8>, ptr: u32) -> u16 {
    be::be16(ram[word_addr(ptr)], ram[word_addr(ptr) + 1])
}

/// Chip RAM with `value` stored in the word that `ptr` addresses.
pub open spec fn with_word_at(ram: Seq<u8>, ptr: u32, value: u16) -> Seq<u8> {
    ram.update(word_addr(ptr), be::hi8(value)).update(word_addr(ptr) + 1, be::lo8(value))
}

/// Mask a guest-controlled blitter pointer into chip RAM. A wild pointer
/// produces garbage output, never a panic.
fn chip_addr(ptr: u32) -> (off: usize)
    ensures
        off == word_addr(ptr),
        off + 1 < CHIP_RAM_SIZE,
{
    proof {
        word_addr_lands_in_chip_ram(ptr);
    }
    (ptr & 0x001F_FFFE) as usize
}

pub(crate) fn read_word(ram: &[u8; CHIP_RAM_SIZE], ptr: u32) -> (value: u16)
    ensures
        value == word_at(ram@, ptr),
{
    let off: usize = chip_addr(ptr);
    be::join16(ram[off], ram[off + 1])
}

pub(crate) fn write_word(ram: &mut [u8; CHIP_RAM_SIZE], ptr: u32, value: u16)
    ensures
        final(ram)@ == with_word_at(old(ram)@, ptr, value),
{
    let off: usize = chip_addr(ptr);
    let (hi, lo) = be::split16(value);
    ram[off] = hi;
    ram[off + 1] = lo;
}

/// One product term of the minterm table: present when `lf` selects its
/// row.
pub open spec fn minterm_row(lf: u8, row: u8, product: u16) -> u16 {
    if lf & row != 0 {
        product
    } else {
        0
    }
}

/// The minterm `lf` of three channel words: the union of the product terms
/// of the rows that `lf` selects.
pub open spec fn minterm_word(lf: u8, a: u16, b: u16, c: u16) -> u16 {
    minterm_row(lf, 0b1000_0000, a & b & c) | minterm_row(lf, 0b0100_0000, a & b & !c)
        | minterm_row(lf, 0b0010_0000, a & !b & c) | minterm_row(lf, 0b0001_0000, a & !b & !c)
        | minterm_row(lf, 0b0000_1000, !a & b & c) | minterm_row(lf, 0b0000_0100, !a & b & !c)
        | minterm_row(lf, 0b0000_0010, !a & !b & c) | minterm_row(lf, 0b0000_0001, !a & !b & !c)
}

fn select_row(lf: u8, row: u8, product: u16) -> (term: u16)
    ensures
        term == minterm_row(lf, row, product),
{
    if lf & row != 0 {
        product
    } else {
        0
    }
}

/// All-bits-parallel evaluation of the 8-bit minterm `lf` on three 16-bit
/// channel words, one AND-product term per row of the truth table that
/// `lf` encodes.
pub fn minterm(lf: u8, a: u16, b: u16, c: u16) -> (d: u16)
    ensures
        d == minterm_word(lf, a, b, c),
{
    let na: u16 = !a;
    let nb: u16 = !b;
    let nc: u16 = !c;
    select_row(lf, 0b1000_0000, a & b & c) | select_row(lf, 0b0100_0000, a & b & nc) | select_row(
        lf,
        0b0010_0000,
        a & nb & c,
    ) | select_row(lf, 0b0001_0000, a & nb & nc) | select_row(lf, 0b0000_1000, na & b & c)
        | select_row(lf, 0b0000_0100, na & b & nc) | select_row(lf, 0b0000_0010, na & nb & c)
        | select_row(lf, 0b0000_0001, na & nb & nc)
}

/// The minterm is the truth table `lf`: in every bit position the result
/// is the bit of `lf` whose number the three input bits spell, A first.
pub proof fn minterm_is_the_truth_table(lf: u8, a: u16, b: u16, c: u16, i: u16)
    by (bit_vector)
    requires
        i < 16,
    ensures
        bit(minterm_word(lf, a, b, c), i) == ((lf >> (((a >> i) & 1) * 4 + ((b >> i) & 1) * 2 + ((c
            >> i) & 1))) & 1 == 1),
{
}

/// Barrel-shift combine of the previous and current raw channel word.
///
/// Ascending mode is `(prev:cur) >> n`, low 16 bits; descending mode is
/// `(cur:prev) << n`, high 16 bits.
pub open spec fn shifted_word(prev: u16, cur: u16, n: u32, desc: bool) -> u16 {
    if n == 0 {
        cur
    } else if desc {
        (((((cur as u32) << 16) | (prev as u32)) << n) >> 16) as u16
    } else {
        ((((prev as u32) << 16) | (cur as u32)) >> n) as u16
    }
}

pub(crate) fn shift_combine(prev: u16, cur: u16, n: u32, desc: bool) -> (word: u16)
    requires
        n < 16,
    ensures
        word == shifted_word(prev, cur, n, desc),
{
    if n == 0 {
        return cur;
    }
    if desc {
        let combined: u32 = ((cur as u32) << 16) | (prev as u32);
        ((combined << n) >> 16) as u16
    } else {
        let combined: u32 = ((prev as u32) << 16) | (cur as u32);
        (combined >> n) as u16
    }
}

/// Ascending, the bottom `n` bits of the previous word enter at the top of
/// the current one; descending, the top `n` bits of the previous word enter
/// at the bottom. All other bits come from the current word.
pub proof fn barrel_shifter_moves_bits(prev: u16, cur: u16, n: u32, i: u16)
    by (bit_vector)
    requires
        n < 16,
        i < 16,
    ensures
        bit(shifted_word(prev, cur, n, false), i) == (if i + n < 16 {
            (cur >> ((i + n) as u16)) & 1 == 1
        } else {
            (prev >> ((i + n - 16) as u16)) & 1 == 1
        }),
        bit(shifted_word(prev, cur, n, true), i) == (if i >= n {
            (cur >> ((i - n) as u16)) & 1 == 1
        } else {
            (prev >> ((i + 16 - n) as u16)) & 1 == 1
        }),
{
}

/// The word and the carry after the fill sequencer has passed over the low
/// `n` bits of `d`.
pub open spec fn filled_bits(d: u16, carry: bool, ife: bool, efe: bool, n: nat) -> (u16, bool)
    decreases n,
{
    if n == 0 {
        (d, carry)
    } else {
        let (out, inside) = filled_bits(d, carry, ife, efe, (n - 1) as nat);
        let mask = 1u16 << ((n - 1) as u16);
        (
            if inside && ife {
                out | mask
            } else if inside && efe {
                out ^ mask
            } else {
                out
            },
            if d & mask != 0 {
                !inside
            } else {
                inside
            },
        )
    }
}

/// The filled word and the carry into the next word of the row.
pub open spec fn filled_word(d: u16, carry: bool, ife: bool, efe: bool) -> (u16, bool) {
    filled_bits(d, carry, ife, efe, 16)
}

/// Inclusive/exclusive fill, applied to the post-minterm D word. Runs
/// across the word from bit 0 to bit 15 (fill requires descending
/// traversal, so bit 0 is the row's trailing edge) and carries its state
/// across the words of a row.
pub(crate) fn apply_fill(d: u16, carry: &mut bool, ife: bool, efe: bool) -> (out: u16)
    ensures
        (out, *final(carry)) == filled_word(d, *old(carry), ife, efe),
{
    let mut out: u16 = d;
    let mut i: u16 = 0;
    while i < 16
        invariant
            i <= 16,
            (out, *carry) == filled_bits(d, *old(carry), ife, efe, i as nat),
        decreases 16 - i,
    {
        let mask: u16 = 1u16 << i;
        if *carry {
            if ife {
                out = out | mask;
            } else if efe {
                out = out ^ mask;
            }
        }
        if d & mask != 0 {
            *carry = !*carry;
        }
        i += 1;
    }
    out
}

/// Whether an odd number of the low `n` bits of `d` are set.
pub open spec fn odd_below(d: u16, n: nat) -> bool
    decreases n,
{
    if n == 0 {
        false
    } else {
        odd_below(d, (n - 1) as nat) != bit(d, (n - 1) as u16)
    }
}

/// Position by position: a bit is inside an outline when the starting carry
/// has been flipped an odd number of times by the set bits below it.
/// Inclusive fill sets every inside bit, exclusive fill inverts it (so the
/// closing edge vanishes), and outside bits pass through.
pub proof fn fill_is_parity_of_edges(d: u16, carry: bool, ife: bool, efe: bool, n: nat, i: u16)
    requires
        n <= 16,
        i < 16,
    ensures
        filled_bits(d, carry, ife, efe, n).1 == (carry != odd_below(d, n)),
        bit(filled_bits(d, carry, ife, efe, n).0, i) == (if i < n && carry != odd_below(d, i as nat)
            && ife {
            true
        } else if i < n && carry != odd_below(d, i as nat) && efe {
            !bit(d, i)
        } else {
            bit(d, i)
        }),
    decreases n,
{
    if n > 0 {
        let m = (n - 1) as nat;
        fill_is_parity_of_edges(d, carry, ife, efe, m, i);
        let (out, inside) = filled_bits(d, carry, ife, efe, m);
        lemma_single_bits(out, d, m as u16, i);
    }
}

/// `value` rotated right by `n` places.
pub open spec fn rotated_right(value: u16, n: u16) -> u16 {
    if n == 0 {
        value
    } else {
        (value >> n) | (value << ((16 - n) as u16))
    }
}

/// `value` rotated left by one place.
pub open spec fn rotated_left_once(value: u16) -> u16 {
    (value << 1) | (value >> 15)
}

pub(crate) fn rotate_right(value: u16, n: u16) -> (rotated: u16)
    requires
        n < 16,
    ensures
        rotated == rotated_right(value, n),
{
    if n == 0 {
        value
    } else {
        (value >> n) | (value << (16 - n))
    }
}

pub(crate) fn rotate_left_once(value: u16) -> (rotated: u16)
    ensures
        rotated == rotated_left_once(value),
{
    (value << 1) | (value >> 15)
}

/// Rotation only moves bits: position `i` of the right rotation holds bit
/// `i + n` modulo 16, and rotating left once undoes rotating right once.
pub proof fn rotation_permutes_bits(value: u16, n: u16, i: u16)
    by (bit_vector)
    requires
        n < 16,
        i < 16,
    ensures
        bit(rotated_right(value, n), i) == ((value >> ((i + n) % 16) as u16) & 1 == 1),
        rotated_left_once(rotated_right(value, 1)) == value,
{
}

} // verus!
