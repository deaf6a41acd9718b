//! Fast RAM: 32-bit-addressable guest RAM beyond the 2 MB chip window.
//!
//! This is memory, not a device: the storage is caller-owned, and this
//! module only decides how the guest is told the memory exists, which is a
//! Zorro III AUTOCONFIG memory board that `expansion.library` links into
//! the free-memory list unaided.
//!
//! # Zorro III extended sizing
//!
//! A memory board bigger than 8 MB cannot fit Zorro II's three `er_Type`
//! size bits, so `er_Flags` bit 5 (`ERFF_EXTENDED`) redirects those bits to
//! a second table:
//!
//! | Code | Size    |
//! |------|---------|
//! | 000  | 16 MB   |
//! | 001  | 32 MB   |
//! | 010  | 64 MB   |
//! | 011  | 128 MB  |
//! | 100  | 256 MB  |
//! | 101  | 512 MB  |
//! | 110  | 1 GB    |
//! | 111  | reserved |

use crate::autoconfig::{BoardSpec, ERTF_MEMLIST, ERT_ZORROIII};
use vstd::prelude::*;

verus! {

/// The manufacturer number reserved for test use. A memory board that
/// reports an unallocated manufacturer is silently skipped by the OS.
pub const MANUFACTURER: u16 = 0x07DB;

/// This board's product number under [`MANUFACTURER`].
pub const PRODUCT: u8 = 2;

/// `er_Flags`: must be set on every genuine Zorro III board.
pub const ERFF_ZORRO_III: u8 = 0x10;

/// `er_Flags`: the size bits of `er_Type` index the extended table.
pub const ERFF_EXTENDED: u8 = 0x20;

/// The smallest extended-table entry, 16 MB.
pub const MIN_SIZE_BYTES: u32 = 0x0100_0000;

/// The largest extended-table entry, 1 GB.
pub const MAX_SIZE_BYTES: u32 = 0x4000_0000;

/// The extended table.
pub open spec fn extended_size(code: u8) -> u32 {
    if code == 0 {
        0x0100_0000
    } else if code == 1 {
        0x0200_0000
    } else if code == 2 {
        0x0400_0000
    } else if code == 3 {
        0x0800_0000
    } else if code == 4 {
        0x1000_0000
    } else if code == 5 {
        0x2000_0000
    } else {
        0x4000_0000
    }
}

/// Whether `code` is the smallest entry of the table that holds `bytes`,
/// or the largest entry when none does.
pub open spec fn is_size_code(bytes: u32, code: u8) -> bool {
    &&& code <= 6
    &&& code < 6 ==> bytes <= extended_size(code)
    &&& code > 0 ==> bytes > extended_size((code - 1) as u8)
}

/// The extended-table code for an aperture of at least `bytes`, rounded up
/// to the nearest of the seven sizes the table can express and capped at
/// 1 GB.
pub fn extended_size_code(bytes: u32) -> (code: u8)
    ensures
        is_size_code(bytes, code),
{
    if bytes <= 0x0100_0000 {
        0
    } else if bytes <= 0x0200_0000 {
        1
    } else if bytes <= 0x0400_0000 {
        2
    } else if bytes <= 0x0800_0000 {
        3
    } else if bytes <= 0x1000_0000 {
        4
    } else if bytes <= 0x2000_0000 {
        5
    } else {
        6
    }
}

fn extended_size_bytes(code: u8) -> (bytes: u32)
    ensures
        bytes == extended_size(code),
{
    match code {
        0 => 0x0100_0000,
        1 => 0x0200_0000,
        2 => 0x0400_0000,
        3 => 0x0800_0000,
        4 => 0x1000_0000,
        5 => 0x2000_0000,
        _ => 0x4000_0000,
    }
}

/// The single `BoardSpec` fast RAM registers on the AUTOCONFIG chain: a
/// Zorro III memory board sized to at least `size_bytes`, rounded up to the
/// nearest extended-table entry, with [`ERTF_MEMLIST`] set so
/// `expansion.library` links it into the system free-memory list.
pub fn autoconfig_board_spec(size_bytes: u32) -> (spec: BoardSpec)
    ensures
        exists|code: u8|
            #[trigger] is_size_code(size_bytes, code) && spec == (BoardSpec {
                board_type: ERT_ZORROIII | ERTF_MEMLIST | code,
                product: PRODUCT,
                flags: ERFF_ZORRO_III | ERFF_EXTENDED,
                manufacturer: MANUFACTURER,
                serial: 0,
                init_diag_vec: 0,
                size_bytes: extended_size(code),
            }),
{
    let code: u8 = extended_size_code(size_bytes);
    BoardSpec {
        board_type: ERT_ZORROIII | ERTF_MEMLIST | code,
        product: PRODUCT,
        flags: ERFF_ZORRO_III | ERFF_EXTENDED,
        manufacturer: MANUFACTURER,
        serial: 0,
        init_diag_vec: 0,
        size_bytes: extended_size_bytes(code),
    }
}

/// Every size has exactly one code, and its entry never under-declares the
/// request up to 1 GB: the aperture holds the bytes asked for, and is the
/// smallest that does.
pub proof fn fast_ram_sizes_round_up(bytes: u32, code: u8, other: u8)
    requires
        is_size_code(bytes, code),
    ensures
        is_size_code(bytes, other) ==> other == code,
        bytes <= MAX_SIZE_BYTES ==> bytes <= extended_size(code),
        MIN_SIZE_BYTES <= extended_size(code) <= MAX_SIZE_BYTES,
        bytes > MAX_SIZE_BYTES ==> extended_size(code) == MAX_SIZE_BYTES,
        bytes > MIN_SIZE_BYTES && bytes <= MAX_SIZE_BYTES ==> extended_size(code) < 2 * bytes,
{
}

/// The board presents itself as Zorro III, asks for the free-memory list,
/// and its size code survives the packing.
pub proof fn fast_ram_type_byte_decodes(code: u8)
    by (bit_vector)
    requires
        code <= 6,
    ensures
        (ERT_ZORROIII | ERTF_MEMLIST | code) & 0xC0 == ERT_ZORROIII,
        (ERT_ZORROIII | ERTF_MEMLIST | code) & ERTF_MEMLIST == ERTF_MEMLIST,
        (ERT_ZORROIII | ERTF_MEMLIST | code) & 0x07 == code,
{
}

/// The table starts at 16 MB and doubles from each code to the next.
pub proof fn extended_sizes_double(code: u8)
    requires
        code < 6,
    ensures
        extended_size(0) == 16 * 1024 * 1024,
        extended_size((code + 1) as u8) == 2 * extended_size(code),
{
}

} // verus!
