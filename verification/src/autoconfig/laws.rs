//! What `expansion.library` sees of the chain, told by the addresses it reads
//! and writes.

use crate::autoconfig::{BoardSpec, Chain, Configured};
use vstd::prelude::*;

verus! {

/// The byte that two reads of the window put together: its upper four bits
/// from the first address, its lower four from two further on.
pub open spec fn seen(c: Chain, n: int) -> int {
    c.byte_at((0x00E8_0000 + 4 * n) as u32) / 16 * 16 + c.byte_at(
        (0x00E8_0000 + 4 * n + 2) as u32,
    ) / 16
}

/// A byte of the board's identity: the type is shown as it is, everything
/// after it inverted.
pub open spec fn identity(c: Chain, n: int) -> int {
    if n == 0 {
        seen(c, 0)
    } else {
        255 - seen(c, n)
    }
}

/// The window spells the answering board's identity: type, product and
/// flags, the manufacturer's number, the serial number and the offset of the
/// boot ROM, each with its high byte first, and zero in the bytes between.
pub proof fn window_spells_the_identity(c: Chain)
    requires
        c.answering() is Some,
    ensures
        ({
            let spec = c.answering()->0;
            &&& identity(c, 0) == spec.board_type
            &&& identity(c, 1) == spec.product
            &&& identity(c, 2) == spec.flags
            &&& identity(c, 3) == 0
            &&& identity(c, 4) * 256 + identity(c, 5) == spec.manufacturer
            &&& ((identity(c, 6) * 256 + identity(c, 7)) * 256 + identity(c, 8)) * 256 + identity(
                c,
                9,
            ) == spec.serial
            &&& identity(c, 10) * 256 + identity(c, 11) == spec.init_diag_vec
            &&& identity(c, 12) == 0
            &&& identity(c, 13) == 0
            &&& identity(c, 14) == 0
            &&& identity(c, 15) == 0
        }),
{
    let spec = c.answering()->0;
    assert forall|n: int| 0 <= n < 16 implies #[trigger] identity(c, n) == spec.rom_byte(n) by {
        crate::autoconfig::nybbles_reassemble_the_rom(c, n as u32);
    }
    assert(identity(c, 0) == spec.rom_byte(0) && identity(c, 1) == spec.rom_byte(1) && identity(
        c,
        2,
    ) == spec.rom_byte(2) && identity(c, 3) == spec.rom_byte(3) && identity(c, 4) == spec.rom_byte(
        4,
    ) && identity(c, 5) == spec.rom_byte(5) && identity(c, 6) == spec.rom_byte(6) && identity(c, 7)
        == spec.rom_byte(7));
    assert(identity(c, 8) == spec.rom_byte(8) && identity(c, 9) == spec.rom_byte(9) && identity(
        c,
        10,
    ) == spec.rom_byte(10) && identity(c, 11) == spec.rom_byte(11) && identity(c, 12)
        == spec.rom_byte(12) && identity(c, 13) == spec.rom_byte(13) && identity(c, 14)
        == spec.rom_byte(14) && identity(c, 15) == spec.rom_byte(15));
    lemma_serial(spec);
}

proof fn lemma_serial(spec: BoardSpec)
    ensures
        ((spec.rom_byte(6) * 256 + spec.rom_byte(7)) * 256 + spec.rom_byte(8)) * 256
            + spec.rom_byte(9) == spec.serial,
        spec.rom_byte(4) * 256 + spec.rom_byte(5) == spec.manufacturer,
        spec.rom_byte(10) * 256 + spec.rom_byte(11) == spec.init_diag_vec,
{
}

/// Everything else in the window floats: odd addresses, and the registers
/// from offset `$40` on.
pub proof fn the_rest_of_the_window_floats(c: Chain, address: u32)
    requires
        0x00E8_0000 <= address < 0x00E9_0000,
        address % 2 == 1 || address >= 0x00E8_0040,
    ensures
        c.byte_at(address) == 0xFF,
{
}

/// The two bus classes are told apart by the top two bits of the type.
proof fn lemma_class(board_type: u8)
    ensures
        (board_type & 0xC0 == 0xC0) == (board_type / 64 == 3),
        (board_type & 0xC0 == 0x80) == (board_type / 64 == 2),
{
    assert((board_type & 0xC0 == 0xC0) == (board_type / 64 == 3) && (board_type & 0xC0 == 0x80)
        == (board_type / 64 == 2)) by (bit_vector);
}

/// A Zorro II board (type `11`) is placed by one byte at offset `$48`, in
/// units of 64 KB. It then owns exactly its size from there on, and the next
/// board answers.
pub proof fn zorro_ii_boards_go_where_they_are_put(c: Chain, page: u8, address: u32)
    requires
        c.placed.len() == 8,
        c.specs.len() == 8,
        c.answering() is Some,
        c.answering()->0.board_type / 64 == 3,
    ensures
        ({
            let after = c.written(0x00E8_0048, page);
            &&& after == (Chain {
                placed: after.placed,
                current: (c.current + 1) as usize,
                z3_base_hi: None,
                ..c
            })
            &&& after.owns(c.current as int, address) <==> page * 0x1_0000 <= address < page
                * 0x1_0000 + c.answering()->0.size_bytes
            &&& forall|other: int|
                0 <= other < 8 && other != c.current ==> #[trigger] after.placed[other]
                    == c.placed[other]
        }),
{
    lemma_class(c.answering()->0.board_type);
}

/// A Zorro III board (type `10`) is placed by two bytes, the high one at
/// offset `$44` and then the low one at `$45`, in units of 64 KB. A low byte
/// with no high byte before it places nothing.
pub proof fn zorro_iii_boards_go_where_they_are_put(c: Chain, hi: u8, lo: u8, address: u32)
    requires
        c.placed.len() == 8,
        c.specs.len() == 8,
        c.answering() is Some,
        c.answering()->0.board_type / 64 == 2,
    ensures
        ({
            let half = c.written(0x00E8_0044, hi);
            let after = half.written(0x00E8_0045, lo);
            let base = (hi * 256 + lo) * 0x1_0000;
            &&& half.current == c.current && half.placed == c.placed
            &&& after == (Chain {
                placed: after.placed,
                current: (c.current + 1) as usize,
                z3_base_hi: None,
                ..c
            })
            &&& after.owns(c.current as int, address) <==> base <= address < base
                + c.answering()->0.size_bytes
            &&& forall|other: int|
                0 <= other < 8 && other != c.current ==> #[trigger] after.placed[other]
                    == c.placed[other]
            &&& c.z3_base_hi is None ==> c.written(0x00E8_0045, lo) == c
        }),
{
    lemma_class(c.answering()->0.board_type);
    assert((hi * 0x100_0000 + lo * 0x1_0000) as u32 == (hi * 256 + lo) * 0x1_0000);
}

/// Each class answers only to its own base register: the other one, and the
/// low byte at offset `$4A`, change nothing.
pub proof fn foreign_base_registers_are_ignored(c: Chain, value: u8)
    requires
        c.answering() is Some,
    ensures
        c.answering()->0.board_type / 64 != 3 ==> c.written(0x00E8_0048, value) == c,
        c.answering()->0.board_type / 64 != 2 ==> c.written(0x00E8_0044, value) == c && c.written(
            0x00E8_0045,
            value,
        ) == c,
        c.written(0x00E8_004A, value) == c,
{
    lemma_class(c.answering()->0.board_type);
}

/// A board told to shut up at offset `$4C` gets no place, and the next one
/// answers.
pub proof fn a_shut_up_board_gets_no_place(c: Chain, value: u8)
    requires
        c.answering() is Some,
        c.specs.len() == 8,
    ensures
        c.written(0x00E8_004C, value) == (Chain {
            current: (c.current + 1) as usize,
            z3_base_hi: None,
            ..c
        }),
        ({
            let after = c.written(0x00E8_004C, value);
            after.answering() == if c.current + 1 < 8 {
                c.specs[c.current + 1]
            } else {
                None
            }
        }),
{
}

/// A placed board answers in its own window and nowhere else.
pub proof fn a_board_owns_its_window(c: Chain, index: int, at: Configured, address: u32)
    requires
        0 <= index < c.placed.len(),
        c.placed[index] == Some(at),
    ensures
        c.owns(index, address) <==> at.base <= address < at.base + at.size_bytes,
{
}

} // verus!
