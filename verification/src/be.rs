//! Big-endian composition of bytes into words, the byte order of the guest.

use vstd::prelude::*;

verus! {

/// The 16-bit word with high byte `hi` and low byte `lo`.
pub open spec fn be16(hi: u8, lo: u8) -> u16 {
    (hi * 256 + lo) as u16
}

/// The 32-bit longword with high word `hi` and low word `lo`.
pub open spec fn be32(hi: u16, lo: u16) -> u32 {
    (hi * 65536 + lo) as u32
}

/// High byte of a word.
pub open spec fn hi8(value: u16) -> u8 {
    (value / 256) as u8
}

/// Low byte of a word.
pub open spec fn lo8(value: u16) -> u8 {
    (value % 256) as u8
}

/// High word of a longword.
pub open spec fn hi16(value: u32) -> u16 {
    (value / 65536) as u16
}

/// Low word of a longword.
pub open spec fn lo16(value: u32) -> u16 {
    (value % 65536) as u16
}

/// Compose a word from its two bytes.
pub fn join16(hi: u8, lo: u8) -> (value: u16)
    ensures
        value == be16(hi, lo),
{
    hi as u16 * 256 + lo as u16
}

/// Compose a longword from its two words.
pub fn join32(hi: u16, lo: u16) -> (value: u32)
    ensures
        value == be32(hi, lo),
{
    hi as u32 * 65536 + lo as u32
}

/// Split a word into its high and low bytes.
pub fn split16(value: u16) -> (bytes: (u8, u8))
    ensures
        bytes == (hi8(value), lo8(value)),
{
    ((value / 256) as u8, (value % 256) as u8)
}

/// Split a longword into its high and low words.
pub fn split32(value: u32) -> (words: (u16, u16))
    ensures
        words == (hi16(value), lo16(value)),
{
    ((value / 65536) as u16, (value % 65536) as u16)
}

/// The two's-complement reading of a word.
pub open spec fn signed16(value: u16) -> i16 {
    if value < 0x8000 {
        value as i16
    } else {
        (value - 0x1_0000) as i16
    }
}

/// The word whose two's-complement reading is `value`.
pub open spec fn unsigned16(value: i16) -> u16 {
    if value >= 0 {
        value as u16
    } else {
        (value + 0x1_0000) as u16
    }
}

/// Read a word as a two's-complement number.
pub fn to_signed16(value: u16) -> (signed: i16)
    ensures
        signed == signed16(value),
{
    if value < 0x8000 {
        value as i16
    } else {
        (value as i32 - 0x1_0000) as i16
    }
}

/// The word that holds a two's-complement number.
pub fn to_unsigned16(value: i16) -> (word: u16)
    ensures
        word == unsigned16(value),
{
    if value >= 0 {
        value as u16
    } else {
        (value as i32 + 0x1_0000) as u16
    }
}

/// Byte `lane` of a longword, lane 0 being the most significant.
pub open spec fn byte_lane(value: u32, lane: int) -> u8 {
    if lane == 0 {
        hi8(hi16(value))
    } else if lane == 1 {
        lo8(hi16(value))
    } else if lane == 2 {
        hi8(lo16(value))
    } else {
        lo8(lo16(value))
    }
}

/// A longword with byte `lane` replaced.
pub open spec fn with_lane(value: u32, lane: int, byte: u8) -> u32 {
    if lane == 0 {
        be32(be16(byte, lo8(hi16(value))), lo16(value))
    } else if lane == 1 {
        be32(be16(hi8(hi16(value)), byte), lo16(value))
    } else if lane == 2 {
        be32(hi16(value), be16(byte, lo8(lo16(value))))
    } else {
        be32(hi16(value), be16(hi8(lo16(value)), byte))
    }
}

/// Byte `lane` (0 = most significant) of a big-endian 32-bit register.
pub fn byte_of(value: u32, lane: u32) -> (byte: u8)
    ensures
        byte == byte_lane(value, lane as int),
{
    let (hi, lo) = split32(value);
    match lane {
        0 => split16(hi).0,
        1 => split16(hi).1,
        2 => split16(lo).0,
        _ => split16(lo).1,
    }
}

/// Replace byte `lane` of a big-endian 32-bit register, leaving the other
/// three bytes untouched.
pub fn set_byte_of(value: u32, lane: u32, byte: u8) -> (updated: u32)
    ensures
        updated == with_lane(value, lane as int, byte),
{
    let (hi, lo) = split32(value);
    match lane {
        0 => join32(join16(byte, split16(hi).1), lo),
        1 => join32(join16(split16(hi).0, byte), lo),
        2 => join32(hi, join16(byte, split16(lo).1)),
        _ => join32(hi, join16(split16(lo).0, byte)),
    }
}

/// Splitting and composing are inverse to each other, at both widths.
pub proof fn split_join_inverse(hi: u8, lo: u8, value: u16, long_hi: u16, long_lo: u16, long: u32)
    ensures
        hi8(be16(hi, lo)) == hi,
        lo8(be16(hi, lo)) == lo,
        be16(hi8(value), lo8(value)) == value,
        hi16(be32(long_hi, long_lo)) == long_hi,
        lo16(be32(long_hi, long_lo)) == long_lo,
        be32(hi16(long), lo16(long)) == long,
{
}

proof fn lemma_hi_lane(hi: u16, lo: u16, a: u8, b: u8)
    requires
        hi == be16(a, b),
    ensures
        byte_lane(be32(hi, lo), 0) == a,
        byte_lane(be32(hi, lo), 1) == b,
        byte_lane(be32(hi, lo), 2) == hi8(lo),
        byte_lane(be32(hi, lo), 3) == lo8(lo),
{
    split_join_inverse(a, b, lo, hi, lo, be32(hi, lo));
    assert(hi16(be32(hi, lo)) == hi && lo16(be32(hi, lo)) == lo);
}

/// Replacing a byte lane is seen in that lane and in no other, and a
/// longword is the composition of its four lanes.
pub proof fn lanes_are_independent(value: u32, lane: int, other: int, byte: u8)
    requires
        0 <= lane < 4,
        0 <= other < 4,
    ensures
        byte_lane(with_lane(value, lane, byte), lane) == byte,
        other != lane ==> byte_lane(with_lane(value, lane, byte), other) == byte_lane(
            value,
            other,
        ),
        be32(
            be16(byte_lane(value, 0), byte_lane(value, 1)),
            be16(byte_lane(value, 2), byte_lane(value, 3)),
        ) == value,
{
    let hi = hi16(value);
    let lo = lo16(value);
    let (a, b, c, d) = (hi8(hi), lo8(hi), hi8(lo), lo8(lo));
    split_join_inverse(0, 0, hi, hi, lo, value);
    split_join_inverse(0, 0, lo, hi, lo, value);
    if lane == 0 {
        lemma_hi_lane(be16(byte, b), lo, byte, b);
    } else if lane == 1 {
        lemma_hi_lane(be16(a, byte), lo, a, byte);
    } else if lane == 2 {
        lemma_hi_lane(hi, be16(byte, d), a, b);
        split_join_inverse(byte, d, 0, 0, 0, 0);
    } else {
        lemma_hi_lane(hi, be16(c, byte), a, b);
        split_join_inverse(c, byte, 0, 0, 0, 0);
    }
}


} // verus!
