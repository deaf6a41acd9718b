//! What display mode a programmed chip shows.

use crate::cirrus::{CirrusState, DecodedMode, PixelDepth};
use vstd::prelude::*;

verus! {

/// A set of CRTC registers as a driver means it: the size of the picture in
/// pixels, the bytes from one row to the next, and where in VRAM it starts.
pub struct Picture {
    pub width: int,
    pub height: int,
    pub stride: int,
    pub start: int,
}

/// Bit `n` of a register, as a number.
#[verifier::opaque]
pub open spec fn bit(value: u8, n: int) -> int {
    if n == 0 {
        value as int % 2
    } else if n == 1 {
        value as int / 2 % 2
    } else if n == 2 {
        value as int / 4 % 2
    } else if n == 3 {
        value as int / 8 % 2
    } else if n == 4 {
        value as int / 16 % 2
    } else if n == 5 {
        value as int / 32 % 2
    } else if n == 6 {
        value as int / 64 % 2
    } else {
        value as int / 128
    }
}

/// Whether the CRTC is programmed for that picture: the width in characters
/// of eight pixels less one in CR01; the height less one in CR12 with bits 8
/// and 9 in CR07, doubled by CR09; the stride in units of eight bytes in CR13
/// with bit 8 in CR1B; the start in units of four bytes in CR0C and CR0D with
/// bits 16 to 18 in CR1B, and the bytes within them in CR08.
pub open spec fn crtc_holds(crtc: Seq<u8>, p: Picture) -> bool {
    let lines = crtc[0x12] + 256 * bit(crtc[0x07], 1) + 512 * bit(crtc[0x07], 6) + 1;
    &&& p.width == 8 * (crtc[0x01] + 1)
    &&& p.height == (if bit(crtc[0x09], 7) == 1 {
        2 * lines
    } else {
        lines
    })
    &&& p.stride == 8 * (crtc[0x13] + 256 * bit(crtc[0x1B], 4))
    &&& p.start == 4 * (256 * crtc[0x0C] + crtc[0x0D] + 65536 * bit(crtc[0x1B], 0) + 131072 * bit(
        crtc[0x1B],
        2,
    ) + 262144 * bit(crtc[0x1B], 3)) + bit(crtc[0x08], 5) + 2 * bit(crtc[0x08], 6)
}

/// Whether the hidden DAC register `dac`, with SR7 at `sr7`, selects this
/// depth. Without bit 7 pixels are palette indices; with it but without bit
/// 6, 15 bits. With both the low nibble tells: 0 is 15 bits, 1 is 16, 5 is
/// 24, and 15 leaves it to SR7.
pub open spec fn dac_selects(dac: u8, sr7: u8, depth: PixelDepth) -> bool {
    let nibble = dac as int % 16;
    let field = sr7 as int / 2 % 8;
    match depth {
        PixelDepth::Bpp8 => dac < 0x80 || dac >= 0xC0 && nibble == 15 && field != 1 && field != 2
            && field != 3,
        PixelDepth::Bpp15 => 0x80 <= dac < 0xC0 || dac >= 0xC0 && nibble == 0,
        PixelDepth::Bpp16 => dac >= 0xC0 && (nibble == 1 || nibble == 15 && (field == 1 || field
            == 3)),
        PixelDepth::Bpp24 => dac >= 0xC0 && (nibble == 5 || nibble == 15 && field == 2),
    }
}

/// Bytes that a pixel of this depth takes.
pub open spec fn pixel_size(depth: PixelDepth) -> int {
    match depth {
        PixelDepth::Bpp8 => 1,
        PixelDepth::Bpp15 => 2,
        PixelDepth::Bpp16 => 2,
        PixelDepth::Bpp24 => 3,
    }
}

/// Whether a picture can be shown from `len` bytes of VRAM.
pub open spec fn showable(p: Picture, depth: PixelDepth, len: int) -> bool {
    &&& 16 <= p.width <= 4096
    &&& 16 <= p.height <= 4096
    &&& p.width * pixel_size(depth) <= p.stride
    &&& p.start + (p.height - 1) * p.stride + p.width * pixel_size(depth) <= len
}

/// Whether the chip is out of reset, not blanked, and in its packed-pixel
/// mode.
pub open spec fn switched_on(c: CirrusState) -> bool {
    bit(c.sr[0], 0) == 1 && bit(c.sr[0], 1) == 1 && bit(c.sr[1], 5) == 0 && bit(c.sr[7], 0) == 1
}

proof fn lemma_register_bits(v: u8)
    by (bit_vector)
    ensures
        (v & 0x03 == 0x03) == (v % 2 == 1 && v / 2 % 2 == 1),
        (v & 0x01 != 0) == (v % 2 == 1),
        (v & 0x02 != 0) == (v / 2 % 2 == 1),
        (v & 0x04 != 0) == (v / 4 % 2 == 1),
        (v & 0x08 != 0) == (v / 8 % 2 == 1),
        (v & 0x10 != 0) == (v / 16 % 2 == 1),
        (v & 0x20 != 0) == (v / 32 % 2 == 1),
        (v & 0x40 != 0) == (v / 64 % 2 == 1),
        (v & 0x80 != 0) == (v / 128 == 1),
        v & 0x0E == v / 2 % 8 * 2,
{
}

/// Testing a bit of a register, and the two panning bits together.
proof fn lemma_bits(v: u8)
    ensures
        (v & 0x01 != 0) == (bit(v, 0) == 1),
        (v & 0x02 != 0) == (bit(v, 1) == 1),
        (v & 0x04 != 0) == (bit(v, 2) == 1),
        (v & 0x08 != 0) == (bit(v, 3) == 1),
        (v & 0x10 != 0) == (bit(v, 4) == 1),
        (v & 0x40 != 0) == (bit(v, 6) == 1),
        (v & 0x80 != 0) == (bit(v, 7) == 1),
        forall|n: int| 0 <= n < 8 ==> 0 <= #[trigger] bit(v, n) <= 1,
        v as int / 32 % 4 == bit(v, 5) + 2 * bit(v, 6),
{
    reveal(bit);
    lemma_register_bits(v);
}

proof fn lemma_height(c: CirrusState, p: Picture)
    requires
        crtc_holds(c.crtc, p),
    ensures
        c.mode_width() == p.width,
        c.mode_height() == p.height,
        0 < p.width <= 2048,
        0 < p.height <= 2048,
{
    lemma_bits(c.crtc[0x07]);
    lemma_bits(c.crtc[0x09]);
    assert(0 <= bit(c.crtc[0x07], 1) <= 1 && 0 <= bit(c.crtc[0x07], 6) <= 1);
}

proof fn lemma_start(c: CirrusState, p: Picture)
    requires
        crtc_holds(c.crtc, p),
    ensures
        c.mode_stride() == p.stride,
        c.mode_start() == p.start,
        0 <= p.stride <= 4088,
        0 <= p.start < 0x20_0004,
{
    let (pan, ext) = (c.crtc[0x08], c.crtc[0x1B]);
    lemma_bits(pan);
    lemma_bits(ext);
    assert(0 <= bit(ext, 0) <= 1 && 0 <= bit(ext, 2) <= 1 && 0 <= bit(ext, 3) <= 1 && 0 <= bit(
        ext,
        4,
    ) <= 1 && 0 <= bit(pan, 5) <= 1 && 0 <= bit(pan, 6) <= 1);
}

proof fn lemma_depth(c: CirrusState, depth: PixelDepth)
    ensures
        dac_selects(c.hidden_dac, c.sr[7], depth) == (c.mode_depth() == Some(depth)),
        c.mode_depth() is None == (c.hidden_dac >= 0xC0 && c.hidden_dac as int % 16 != 0
            && c.hidden_dac as int % 16 != 1 && c.hidden_dac as int % 16 != 5
            && c.hidden_dac as int % 16 != 15),
        pixel_size(depth) == depth.size(),
{
    lemma_register_bits(c.hidden_dac);
    lemma_register_bits(c.sr[7]);
}

proof fn lemma_switched_on(c: CirrusState)
    ensures
        switched_on(c) == c.displaying(),
{
    reveal(bit);
    lemma_register_bits(c.sr[0]);
    lemma_register_bits(c.sr[1]);
    lemma_register_bits(c.sr[7]);
}

/// The mode a driver programs is the mode that is shown. A chip that is
/// switched on, whose CRTC holds a picture and whose DAC selects a depth,
/// decodes to exactly that picture and depth if VRAM holds it whole, and to
/// nothing otherwise; one that is off, or whose DAC selects no depth, shows
/// nothing.
pub proof fn programmed_mode_is_shown(c: CirrusState, p: Picture, depth: PixelDepth)
    requires
        c.sr.len() == 32,
        c.crtc.len() == 64,
        crtc_holds(c.crtc, p),
        c.vram.len() <= u32::MAX,
    ensures
        switched_on(c) && dac_selects(c.hidden_dac, c.sr[7], depth) && showable(
            p,
            depth,
            c.vram.len() as int,
        ) ==> c.decoded() == Some(
            DecodedMode {
                width: p.width as u32,
                height: p.height as u32,
                depth,
                stride_bytes: p.stride as u32,
                start_offset: p.start as u32,
            },
        ),
        dac_selects(c.hidden_dac, c.sr[7], depth) && !showable(p, depth, c.vram.len() as int)
            ==> c.decoded() is None,
        !switched_on(c) ==> c.decoded() is None,
        c.hidden_dac >= 0xC0 && c.hidden_dac as int % 16 != 0 && c.hidden_dac as int % 16 != 1
            && c.hidden_dac as int % 16 != 5 && c.hidden_dac as int % 16 != 15
            ==> c.decoded() is None,
        c.decoded() matches Some(m) ==> dac_selects(c.hidden_dac, c.sr[7], m.depth) && m.width
            == p.width && m.height == p.height && m.stride_bytes == p.stride && m.start_offset
            == p.start,
{
    lemma_height(c, p);
    lemma_start(c, p);
    lemma_switched_on(c);
    lemma_depth(c, depth);
    let m = c.programmed_mode();
    assert(m.width == p.width && m.height == p.height && m.stride_bytes == p.stride
        && m.start_offset == p.start);
    if c.mode_depth() is Some {
        lemma_depth(c, c.mode_depth()->0);
    }
    if c.mode_depth() == Some(depth) {
        assert(m.end() == p.start + (p.height - 1) * p.stride + p.width * pixel_size(depth));
        assert(showable(p, depth, c.vram.len() as int) && c.displaying() == c.presentable()
            || !showable(p, depth, c.vram.len() as int) && !c.presentable());
    }
}

} // verus!
