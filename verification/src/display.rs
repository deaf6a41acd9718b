//! The display surface a board layer provides, and the pixel format the
//! renderer writes into it.
//!
//! The board layer supplies the framebuffer storage and this crate fills it,
//! so the same renderer works in front of any display backend.

use vstd::prelude::*;

verus! {

/// Widest picture the stop-gap renderer will produce: hires with a generous
/// overscan allowance.
pub const MAX_WIDTH: usize = 752;

/// Tallest picture the stop-gap renderer will produce: PAL interlaced with
/// overscan.
pub const MAX_HEIGHT: usize = 576;

/// A borrowed 32-bit framebuffer the renderer draws into.
///
/// Pixels are `0xAARRGGBB` with alpha always `$FF`, which a board layer can
/// hand straight to its display without a conversion pass.
pub struct Framebuffer<'a> {
    pub pixels: &'a mut [u32],
    pub width: usize,
    pub height: usize,
}

impl<'a> Framebuffer<'a> {
    /// The storage holds every pixel of the stated geometry.
    pub open spec fn wf(&self) -> bool {
        self.width * self.height <= self.pixels@.len()
    }

    /// Wrap caller-owned storage. Returns `None` if `pixels` is too small
    /// for the stated geometry, so a board layer cannot quietly hand over a
    /// buffer the renderer would run off the end of.
    pub fn new(pixels: &'a mut [u32], width: usize, height: usize) -> (fb: Option<Self>)
        ensures
            fb is Some == (width > 0 && height > 0 && width * height <= old(pixels)@.len()),
            fb matches Some(f) ==> f.wf() && f.pixels@ == old(pixels)@ && f.width == width
                && f.height == height && final(f.pixels)@ == final(pixels)@,
            fb is None ==> final(pixels)@ == old(pixels)@,
    {
        assert(pixels.len() == pixels@.len());
        match width.checked_mul(height) {
            Some(needed) => {
                if width == 0 || height == 0 || pixels.len() < needed {
                    None
                } else {
                    Some(Self { pixels, width, height })
                }
            },
            None => None,
        }
    }

    /// Set one pixel; outside the geometry nothing happens.
    pub fn put(&mut self, x: usize, y: usize, argb: u32)
        requires
            old(self).wf(),
        ensures
            final(self).wf(),
            final(self).width == old(self).width,
            final(self).height == old(self).height,
            final(self).pixels@ == (if x < old(self).width && y < old(self).height {
                old(self).pixels@.update(y * old(self).width + x, argb)
            } else {
                old(self).pixels@
            }),
            final(final(self).pixels)@ == final(old(self).pixels)@,
    {
        if x < self.width && y < self.height {
            assert(0 <= y * self.width && y * self.width + x < self.width * self.height)
                by (nonlinear_arith)
                requires
                    x < self.width,
                    y < self.height,
            ;
            let stored: usize = self.pixels.len();
            assert(y * self.width + x < stored);
            self.pixels[y * self.width + x] = argb;
        }
    }

    /// Set every pixel of the storage.
    pub fn fill(&mut self, argb: u32)
        ensures
            final(self).width == old(self).width,
            final(self).height == old(self).height,
            final(self).pixels@ == Seq::new(old(self).pixels@.len(), |i: int| argb),
            final(final(self).pixels)@ == final(old(self).pixels)@,
    {
        let mut i: usize = 0;
        while i < self.pixels.len()
            invariant
                i <= self.pixels@.len(),
                self.pixels@.len() == old(self).pixels@.len(),
                self.width == old(self).width,
                self.height == old(self).height,
                final(self.pixels)@ == final(old(self).pixels)@,
                forall|j: int| 0 <= j < i ==> self.pixels@[j] == argb,
            decreases self.pixels@.len() - i,
        {
            self.pixels[i] = argb;
            i += 1;
        }
        assert(self.pixels@ =~= Seq::new(old(self).pixels@.len(), |i: int| argb));
    }
}

/// A 4-bit gun replicated into both nibbles of a byte.
pub open spec fn widened(gun: u16) -> int {
    gun % 16 * 0x11
}

/// A 12-bit Amiga colour register expanded to `0xAARRGGBB`.
pub open spec fn amiga_argb(color: u16) -> u32 {
    (0xFF00_0000 + widened(color / 0x100) * 0x1_0000 + widened(color / 0x10) * 0x100 + widened(
        color,
    )) as u32
}

/// Expand a 12-bit Amiga colour register (`$0RGB`) to `0xAARRGGBB`.
///
/// Each 4-bit gun is replicated into both nibbles of its byte rather than
/// shifted left, so `$F` becomes `$FF` and full-intensity white is actually
/// white.
pub fn argb_from_amiga(color: u16) -> (argb: u32)
    ensures
        argb == amiga_argb(color),
{
    let r: u32 = (color / 0x100 % 16) as u32;
    let g: u32 = (color / 0x10 % 16) as u32;
    let b: u32 = (color % 16) as u32;
    0xFF00_0000 + r * 0x11 * 0x1_0000 + g * 0x11 * 0x100 + b * 0x11
}

/// The expansion is opaque, keeps the three guns apart, and ignores the top
/// nibble.
pub proof fn amiga_colours_expand_gun_by_gun(r: u16, g: u16, b: u16, top: u16)
    requires
        r < 16,
        g < 16,
        b < 16,
        top < 16,
    ensures
        amiga_argb((top * 0x1000 + r * 0x100 + g * 0x10 + b) as u16) == 0xFF00_0000 + r * 0x11_0000
            + g * 0x1100 + b * 0x11,
{
    let color = (top * 0x1000 + r * 0x100 + g * 0x10 + b) as u16;
    assert(color / 0x10 == top * 0x100 + r * 0x10 + g);
    assert(color / 0x100 == top * 0x10 + r);
    assert(color % 16 == b);
    assert(color / 0x10 % 16 == g);
    assert(color / 0x100 % 16 == r);
}

/// Where a rendered frame goes once it exists.
///
/// Implemented by each board layer. `present` is called at most once per
/// emulated frame, from whatever context owns the renderer.
pub trait DisplaySurface {
    /// The geometry this surface wants. The renderer clips to it.
    fn dimensions(&self) -> (usize, usize);

    /// Hand over a completed frame. `pixels` is `width * height` in
    /// `0xAARRGGBB`, borrowed only for the duration of the call.
    fn present(&mut self, pixels: &[u32], width: usize, height: usize);
}

} // verus!
