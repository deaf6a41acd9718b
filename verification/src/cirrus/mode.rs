//! Decoding the display mode that the driver has programmed.

use crate::be;
use crate::cirrus::idx;
use crate::cirrus::{Cirrus542x, CirrusState};
use vstd::prelude::*;

verus! {

/// How many bits each pixel occupies in VRAM, once the driver has
/// programmed a mode.
#[derive(Clone, Copy, PartialEq, Eq, Debug, Structural)]
pub enum PixelDepth {
    /// 8 bits per pixel through the palette.
    Bpp8,
    /// 15 bits per pixel, direct colour.
    Bpp15,
    /// 16 bits per pixel, direct colour.
    Bpp16,
    /// 24 bits per pixel, direct colour.
    Bpp24,
}

impl PixelDepth {
    /// Bytes a pixel of this depth occupies.
    pub open spec fn size(self) -> int {
        match self {
            PixelDepth::Bpp8 => 1,
            PixelDepth::Bpp15 => 2,
            PixelDepth::Bpp16 => 2,
            PixelDepth::Bpp24 => 3,
        }
    }

    /// Bytes a pixel of this depth occupies.
    pub fn bytes_per_pixel(self) -> (bytes: u32)
        ensures
            bytes == self.size(),
            1 <= bytes <= 3,
    {
        match self {
            PixelDepth::Bpp8 => 1,
            PixelDepth::Bpp15 | PixelDepth::Bpp16 => 2,
            PixelDepth::Bpp24 => 3,
        }
    }
}

/// The display mode the driver has programmed, as far as the renderer needs
/// to care: enough to walk VRAM and produce pixels.
#[derive(Clone, Copy, PartialEq, Eq, Debug, Structural)]
pub struct DecodedMode {
    pub width: u32,
    pub height: u32,
    pub depth: PixelDepth,
    /// Bytes between the start of one displayed row and the next.
    pub stride_bytes: u32,
    /// Byte offset into VRAM of the first displayed pixel.
    pub start_offset: u32,
}

/// `amount` when any bit of `mask` is set in `value`, else zero.
pub open spec fn when_set(value: u8, mask: u8, amount: int) -> int {
    if value & mask != 0 {
        amount
    } else {
        0
    }
}

fn if_set(value: u8, mask: u8, amount: u32) -> (contribution: u32)
    ensures
        contribution == when_set(value, mask, amount as int),
        contribution <= amount,
{
    if value & mask != 0 {
        amount
    } else {
        0
    }
}

impl DecodedMode {
    /// One past the last byte of VRAM that scanning this mode out reads.
    pub open spec fn end(self) -> int {
        self.start_offset + (self.height - 1) * self.stride_bytes + self.width * self.depth.size()
    }
}

impl CirrusState {
    /// Out of reset, screen on, and in the extended packed-pixel mode.
    pub open spec fn displaying(self) -> bool {
        &&& self.sr[0] & 0x03 == 0x03
        &&& self.sr[1] & 0x20 == 0
        &&& self.sr[idx::SR_EXTENDED_MODE as int] & 0x01 != 0
    }

    pub open spec fn mode_width(self) -> int {
        (self.crtc[0x01] + 1) * 8
    }

    /// Ten bits of height across CR12 and CR07, doubled by doublescan.
    pub open spec fn mode_height(self) -> int {
        let lines = self.crtc[0x12] + when_set(self.crtc[0x07], 0x02, 0x100) + when_set(
            self.crtc[0x07],
            0x40,
            0x200,
        ) + 1;
        if self.crtc[0x09] & 0x80 != 0 {
            lines * 2
        } else {
            lines
        }
    }

    /// CR13 in units of 8 bytes, extended by CR1B bit 4.
    pub open spec fn mode_stride(self) -> int {
        (self.crtc[0x13] + when_set(self.crtc[0x1B], 0x10, 0x100)) * 8
    }

    /// CR0C/CR0D in doublewords, extended by CR1B bits 0/2/3, plus the byte
    /// panning of CR08 bits 5-6.
    pub open spec fn mode_start(self) -> int {
        (be::be16(self.crtc[0x0C], self.crtc[0x0D]) + when_set(self.crtc[0x1B], 0x01, 0x1_0000)
            + when_set(self.crtc[0x1B], 0x04, 0x2_0000) + when_set(
            self.crtc[0x1B],
            0x08,
            0x4_0000,
        )) * 4 + self.crtc[0x08] / 32 % 4
    }

    /// The depth the hidden DAC selects, if it is one a driver programs:
    /// bit 7 clear is 8bpp, bit 6 clear 15bpp, else the low nibble picks,
    /// with `0x0F` deferring to SR7.
    pub open spec fn mode_depth(self) -> Option<PixelDepth> {
        if self.hidden_dac & 0x80 == 0 {
            Some(PixelDepth::Bpp8)
        } else if self.hidden_dac & 0x40 == 0 {
            Some(PixelDepth::Bpp15)
        } else if self.hidden_dac % 16 == 0x00 {
            Some(PixelDepth::Bpp15)
        } else if self.hidden_dac % 16 == 0x01 {
            Some(PixelDepth::Bpp16)
        } else if self.hidden_dac % 16 == 0x05 {
            Some(PixelDepth::Bpp24)
        } else if self.hidden_dac % 16 == 0x0F {
            let extended = self.sr[idx::SR_EXTENDED_MODE as int] & 0x0E;
            if extended == 0x04 {
                Some(PixelDepth::Bpp24)
            } else if extended == 0x02 || extended == 0x06 {
                Some(PixelDepth::Bpp16)
            } else {
                Some(PixelDepth::Bpp8)
            }
        } else {
            None
        }
    }

    /// What the registers program, whether or not it can be presented.
    pub open spec fn programmed_mode(self) -> DecodedMode {
        DecodedMode {
            width: self.mode_width() as u32,
            height: self.mode_height() as u32,
            depth: self.mode_depth()->0,
            stride_bytes: self.mode_stride() as u32,
            start_offset: self.mode_start() as u32,
        }
    }

    /// Whether what the registers program can be presented: a displaying
    /// chip, a known depth, sane dimensions, a stride no narrower than a
    /// row, and a scanout inside VRAM (its length taken as 32 bits).
    pub open spec fn presentable(self) -> bool {
        let m = self.programmed_mode();
        &&& self.displaying()
        &&& self.mode_depth() is Some
        &&& 16 <= m.width <= 4096
        &&& 16 <= m.height <= 4096
        &&& m.stride_bytes >= m.width * m.depth.size()
        &&& m.end() <= self.vram.len() as u32
    }

    /// The mode to present.
    pub open spec fn decoded(self) -> Option<DecodedMode> {
        if self.presentable() {
            Some(self.programmed_mode())
        } else {
            None
        }
    }
}

impl<'a> Cirrus542x<'a> {
    fn decoded_depth(&self) -> (depth: Option<PixelDepth>)
        ensures
            depth == self@.mode_depth(),
    {
        if self.hidden_dac & 0x80 == 0 {
            Some(PixelDepth::Bpp8)
        } else if self.hidden_dac & 0x40 == 0 {
            Some(PixelDepth::Bpp15)
        } else {
            match self.hidden_dac % 16 {
                0x00 => Some(PixelDepth::Bpp15),
                0x01 => Some(PixelDepth::Bpp16),
                0x05 => Some(PixelDepth::Bpp24),
                0x0F => match self.sr[idx::SR_EXTENDED_MODE as usize] & 0x0E {
                    0x04 => Some(PixelDepth::Bpp24),
                    0x02 | 0x06 => Some(PixelDepth::Bpp16),
                    _ => Some(PixelDepth::Bpp8),
                },
                // Guest-controlled input: an unrecognised code is "not
                // presentable" rather than a guess.
                _ => None,
            }
        }
    }

    /// The mode the driver has programmed, or `None` while the card is not
    /// displaying anything the renderer can present.
    pub fn decoded_mode(&self) -> (decoded: Option<DecodedMode>)
        ensures
            decoded == self@.decoded(),
    {
        // SR0 bits 0-1 are the reset bits, SR1 bit 5 is Screen Off, and SR7
        // bit 0 gates the packed-pixel path.
        if self.sr[0] & 0x03 != 0x03 {
            return None;
        }
        if self.sr[1] & 0x20 != 0 {
            return None;
        }
        if self.sr[idx::SR_EXTENDED_MODE as usize] & 0x01 == 0 {
            return None;
        }
        let width: u32 = (self.crtc[0x01] as u32 + 1) * 8;
        let lines: u32 = self.crtc[0x12] as u32 + if_set(self.crtc[0x07], 0x02, 0x100) + if_set(
            self.crtc[0x07],
            0x40,
            0x200,
        ) + 1;
        let height: u32 = if self.crtc[0x09] & 0x80 != 0 {
            lines * 2
        } else {
            lines
        };
        if width < 16 || width > 4096 || height < 16 || height > 4096 {
            return None;
        }
        let stride_bytes: u32 = (self.crtc[0x13] as u32 + if_set(self.crtc[0x1B], 0x10, 0x100))
            * 8;
        if stride_bytes == 0 {
            return None;
        }
        let start_units: u32 = be::join16(self.crtc[0x0C], self.crtc[0x0D]) as u32 + if_set(
            self.crtc[0x1B],
            0x01,
            0x1_0000,
        ) + if_set(self.crtc[0x1B], 0x04, 0x2_0000) + if_set(self.crtc[0x1B], 0x08, 0x4_0000);
        let panning: u32 = (self.crtc[0x08] / 32 % 4) as u32;
        let start_offset: u32 = start_units * 4 + panning;
        let depth = match self.decoded_depth() {
            Some(depth) => depth,
            None => return None,
        };

        // A stride narrower than one displayed row, or a scanout that would
        // run past the end of VRAM, is rejected: the guest controls every
        // register here.
        let bytes: u32 = depth.bytes_per_pixel();
        assert(width * bytes <= 2048 * 3) by (nonlinear_arith)
            requires
                width <= 2048,
                bytes <= 3,
        ;
        let row_bytes: u32 = width * bytes;
        if stride_bytes < row_bytes {
            return None;
        }
        assert((height - 1) * stride_bytes <= 4095 * 4088) by (nonlinear_arith)
            requires
                1 <= height <= 4096,
                stride_bytes <= 4088,
        ;
        let end: u32 = start_offset + (height - 1) * stride_bytes + row_bytes;
        if end > self.vram.len() as u32 {
            return None;
        }
        Some(DecodedMode { width, height, depth, stride_bytes, start_offset })
    }
}

} // verus!
