//! Graffity, a Zorro II RTG board, this machine's graphics card.
//!
//! Built on Cirrus Logic CL-GD5428 silicon; see [`crate::cirrus`] for why
//! the chip and board layers are split.
//!
//! The card takes two consecutive AUTOCONFIG entries backed by one device:
//! [`PRODUCT_VRAM`] is the linear VRAM aperture, [`PRODUCT_REGS`] the
//! VGA-register window. The VRAM board is offered to the chain first. A
//! register window offset is the VGA port number the chip expects, so
//! routing is a straight `address - base`.

use crate::autoconfig::{BoardSpec, ERT_ZORROII};
use crate::cirrus;
use crate::cirrus::{ChipRevision, Cirrus542x, CirrusState, DecodedMode};
use crate::OPEN_BUS_BYTE;
use vstd::prelude::*;

verus! {

/// The registered expansion manufacturer ID.
pub const MANUFACTURER: u16 = 2092;

/// Linear VRAM aperture.
pub const PRODUCT_VRAM: u8 = 34;

/// VGA-register and monitor-switch window.
pub const PRODUCT_REGS: u8 = 33;

/// Size of the VGA-register aperture: 128 KB, though only the low VGA port
/// range within it is live.
pub const REGS_WINDOW_BYTES: u32 = 0x0002_0000;

/// The revision this board always presents.
pub const REVISION: ChipRevision = ChipRevision::Gd5428;

/// The eight Zorro II AUTOCONFIG aperture sizes (`er_Type` bits 2:0): code
/// 1 is 64 KB, each further code doubles it, and 8 MB is code 0.
pub open spec fn zorro_ii_size(code: u8) -> u32 {
    if code == 1 {
        0x0001_0000
    } else if code == 2 {
        0x0002_0000
    } else if code == 3 {
        0x0004_0000
    } else if code == 4 {
        0x0008_0000
    } else if code == 5 {
        0x0010_0000
    } else if code == 6 {
        0x0020_0000
    } else if code == 7 {
        0x0040_0000
    } else {
        0x0080_0000
    }
}

/// Whether `code` is the smallest aperture that holds `bytes`, or the
/// largest aperture, code 0, when no smaller one does.
pub open spec fn is_size_code(bytes: u32, code: u8) -> bool {
    &&& code <= 7
    &&& code != 0 ==> bytes <= zorro_ii_size(code)
    &&& code > 1 ==> bytes > zorro_ii_size((code - 1) as u8)
    &&& code == 0 ==> bytes > zorro_ii_size(7)
}

/// The Zorro II size code for an aperture of at least `bytes`, rounded up
/// to the nearest of the eight sizes AUTOCONFIG can express and capped at
/// 8 MB.
fn zorro_ii_size_code(bytes: u32) -> (code: u8)
    ensures
        is_size_code(bytes, code),
{
    if bytes <= 0x0001_0000 {
        1
    } else if bytes <= 0x0002_0000 {
        2
    } else if bytes <= 0x0004_0000 {
        3
    } else if bytes <= 0x0008_0000 {
        4
    } else if bytes <= 0x0010_0000 {
        5
    } else if bytes <= 0x0020_0000 {
        6
    } else if bytes <= 0x0040_0000 {
        7
    } else {
        0
    }
}

fn zorro_ii_size_bytes(code: u8) -> (bytes: u32)
    ensures
        bytes == zorro_ii_size(code),
{
    match code {
        1 => 0x0001_0000,
        2 => 0x0002_0000,
        3 => 0x0004_0000,
        4 => 0x0008_0000,
        5 => 0x0010_0000,
        6 => 0x0020_0000,
        7 => 0x0040_0000,
        _ => 0x0080_0000,
    }
}

/// The VRAM aperture's identity for a size code.
pub open spec fn vram_board(code: u8) -> BoardSpec {
    BoardSpec {
        board_type: ERT_ZORROII | code,
        product: PRODUCT_VRAM,
        flags: 0,
        manufacturer: MANUFACTURER,
        serial: 0,
        init_diag_vec: 0,
        size_bytes: zorro_ii_size(code),
    }
}

/// The register window's identity: always 128 KB, size code 2.
pub open spec fn regs_board() -> BoardSpec {
    BoardSpec {
        board_type: ERT_ZORROII | 2,
        product: PRODUCT_REGS,
        flags: 0,
        manufacturer: MANUFACTURER,
        serial: 0,
        init_diag_vec: 0,
        size_bytes: REGS_WINDOW_BYTES,
    }
}

/// The two `BoardSpec`s Graffity registers on the AUTOCONFIG chain, in the
/// order it offers them: VRAM first, sized to at least `vram_len`, then the
/// register window.
pub fn board_specs(vram_len: u32) -> (specs: (BoardSpec, BoardSpec))
    ensures
        exists|code: u8| #[trigger] is_size_code(vram_len, code) && specs.0 == vram_board(code),
        specs.1 == regs_board(),
{
    let vram_size_code: u8 = zorro_ii_size_code(vram_len);
    let vram = BoardSpec {
        board_type: ERT_ZORROII | vram_size_code,
        product: PRODUCT_VRAM,
        flags: 0,
        manufacturer: MANUFACTURER,
        serial: 0,
        init_diag_vec: 0,
        size_bytes: zorro_ii_size_bytes(vram_size_code),
    };
    let regs_size_code: u8 = zorro_ii_size_code(REGS_WINDOW_BYTES);
    let regs = BoardSpec {
        board_type: ERT_ZORROII | regs_size_code,
        product: PRODUCT_REGS,
        flags: 0,
        manufacturer: MANUFACTURER,
        serial: 0,
        init_diag_vec: 0,
        size_bytes: REGS_WINDOW_BYTES,
    };
    (vram, regs)
}

/// Every VRAM size has exactly one code, and up to 8 MB the declared
/// aperture is never smaller than the backing store.
pub proof fn vram_aperture_rounds_up(bytes: u32, code: u8, other: u8)
    requires
        is_size_code(bytes, code),
    ensures
        is_size_code(bytes, other) ==> other == code,
        bytes <= 0x0080_0000 ==> bytes <= zorro_ii_size(code),
        bytes > 0x0080_0000 ==> zorro_ii_size(code) == 0x0080_0000,
{
}

/// The Graffity board: a [`Cirrus542x`] chip given Graffity's AUTOCONFIG
/// identity and window layout.
pub struct Graffity<'a> {
    pub chip: Cirrus542x<'a>,
}

impl<'a> View for Graffity<'a> {
    type V = CirrusState;

    open spec fn view(&self) -> CirrusState {
        self.chip@
    }
}

impl<'a> Graffity<'a> {
    /// Build a card over caller-owned VRAM.
    pub fn new(vram: &'a mut [u8]) -> (card: Self)
        ensures
            card@ == cirrus::reset_state(REVISION, old(vram)@),
            final(card.chip.vram)@ == final(vram)@,
    {
        Self { chip: Cirrus542x::new(REVISION, vram) }
    }

    /// The two `BoardSpec`s this card wants registered on the chain, for
    /// the current VRAM size (taken as 32 bits).
    pub fn board_specs(&self) -> (specs: (BoardSpec, BoardSpec))
        ensures
            exists|code: u8| #[trigger]
                is_size_code(self@.vram.len() as u32, code) && specs.0 == vram_board(code),
            specs.1 == regs_board(),
    {
        board_specs(self.chip.vram_len() as u32)
    }

    /// Read a byte of VRAM through the linear aperture, by offset from the
    /// aperture's configured base.
    pub fn vram_read(&self, offset: u32) -> (value: u8)
        ensures
            value == (if offset < self@.vram.len() {
                self@.vram[offset as int]
            } else {
                OPEN_BUS_BYTE
            }),
    {
        self.chip.vram_read(offset as usize)
    }

    /// Write a byte of VRAM through the linear aperture.
    pub fn vram_write(&mut self, offset: u32, value: u8)
        ensures
            final(self)@ == old(self)@.aperture_written(offset as usize, value),
            final(final(self).chip.vram)@ == final(old(self).chip.vram)@,
    {
        self.chip.vram_write(offset as usize, value);
    }

    /// Borrow the whole VRAM backing store, for a bulk present path.
    pub fn vram(&self) -> (bytes: &[u8])
        ensures
            bytes@ == self@.vram,
    {
        self.chip.vram()
    }

    /// Read a VGA register. `offset` is the register window offset from its
    /// configured base, which is the VGA port number.
    pub fn reg_read(&mut self, offset: u32) -> (value: u8)
        ensures
            (value, final(self)@) == old(self)@.reg_read(offset),
            final(final(self).chip.vram)@ == final(old(self).chip.vram)@,
    {
        self.chip.reg_read(offset)
    }

    /// Write a VGA register.
    pub fn reg_write(&mut self, offset: u32, value: u8)
        ensures
            final(self)@ == old(self)@.reg_written(offset, value),
            final(final(self).chip.vram)@ == final(old(self).chip.vram)@,
    {
        self.chip.reg_write(offset, value);
    }

    /// The mode the driver has programmed, or `None` while the card is not
    /// displaying anything the renderer can present.
    pub fn decoded_mode(&self) -> (decoded: Option<DecodedMode>)
        ensures
            decoded == self@.decoded(),
    {
        self.chip.decoded_mode()
    }

    /// Look up a palette entry, expanded to eight bits per gun.
    pub fn palette_argb(&self, index: u8) -> (argb: u32)
        ensures
            argb == self@.palette[index as int].argb(),
    {
        self.chip.palette_argb(index)
    }
}

/// The apertures start at 64 KB with code 1 and double from each code to the
/// next, the eighth of them being code 0.
pub proof fn zorro_ii_sizes_double(code: u8)
    requires
        1 <= code < 8,
    ensures
        zorro_ii_size(1) == 64 * 1024,
        zorro_ii_size((code + 1) as u8 % 8) == 2 * zorro_ii_size(code),
{
}

/// The two boards announce themselves as Zorro II boards of the same maker,
/// with their size codes in the low three bits of the type.
pub proof fn boards_announce_themselves(code: u8)
    requires
        code <= 7,
    ensures
        vram_board(code).board_type == 0xC0 + code,
        vram_board(code).product == 34,
        vram_board(code).manufacturer == 2092,
        regs_board().board_type == 0xC2,
        regs_board().product == 33,
        regs_board().manufacturer == 2092,
        regs_board().size_bytes == zorro_ii_size(2),
{
    assert(0xC0u8 | code == 0xC0 + code && 0xC0u8 | 2 == 0xC2) by (bit_vector)
        requires
            code <= 7,
    ;
}

} // verus!
