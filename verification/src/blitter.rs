//! Software blitter.
//!
//! graphics.library uses the blitter for any planar bitmap (`Text()`,
//! offscreen `BltBitMap`, pointer imagery) even with the desktop on a
//! graphics card, so the blitter has to exist and has to be right.
//!
//! It is synchronous: the whole operation runs to completion when the bus
//! executes the blit that a size write armed. There is no timing model and
//! no DMA contention; the guest always observes `BBUSY` clear. `BZERO` and
//! the blitter-finished interrupt are real, because the OS acts on both.

use crate::be;
use crate::CHIP_RAM_SIZE;
use vstd::prelude::*;

pub mod area;
pub mod area_laws;
pub mod laws;
pub mod line;
pub mod line_laws;
pub mod reg;
pub mod reg_laws;
pub mod resume_laws;
pub mod word;

pub use crate::blitter::word::minterm;

verus! {

/// Source channel indices, in the order the hardware numbers them.
pub const CHAN_A: usize = 0;

pub const CHAN_B: usize = 1;

pub const CHAN_C: usize = 2;

pub const CHAN_D: usize = 3;

/// `DMACONR` bit 14: blitter busy. Only ever set while the host is
/// mid-blit, so the guest always observes it clear.
pub const DMACONR_BBUSY: u16 = 0x4000;

/// `DMACONR` bit 13: set when the last blit produced all-zero output.
pub const DMACONR_BZERO: u16 = 0x2000;

/// `BLTCON0` bit 11: use channel A. Bits 8-11 are the channel enables.
pub const BLTCON0_USEA: u16 = 0x0800;

pub const BLTCON0_USEB: u16 = 0x0400;

pub const BLTCON0_USEC: u16 = 0x0200;

pub const BLTCON0_USED: u16 = 0x0100;

/// `BLTCON1` bit 0: line mode rather than area mode.
pub const BLTCON1_LINE: u16 = 0x0001;

/// `BLTCON1` bit 1: descending (decrement pointers instead of increment).
pub const BLTCON1_DESC: u16 = 0x0002;

/// `BLTCON1` bit 2: fill carry input.
pub const BLTCON1_FCI: u16 = 0x0004;

/// `BLTCON1` bit 3: inclusive fill.
pub const BLTCON1_IFE: u16 = 0x0008;

/// `BLTCON1` bit 4: exclusive fill.
pub const BLTCON1_EFE: u16 = 0x0010;

/// `BLTCON1` bit 6: line-mode Bresenham sign status.
pub const BLTCON1_SIGN: u16 = 0x0040;

/// Line-mode reading of bit 1: single-dot mode (used with a dashed or
/// dotted line pattern). Bits 1-4 are overloaded when `LINE` is set.
pub const BLTCON1_SING: u16 = 0x0002;

/// Line-mode reading of bit 2, "always up/left": direction of the major
/// (every-pixel) axis. 0 = increasing, 1 = decreasing.
pub const BLTCON1_AUL: u16 = 0x0004;

/// Line-mode reading of bit 3, "sometimes up/left": direction of the minor
/// (conditionally stepped) axis. 0 = increasing, 1 = decreasing.
pub const BLTCON1_SUL: u16 = 0x0008;

/// Line-mode reading of bit 4, "sometimes up/down": which axis is minor.
/// 0 = minor is X, major is Y. 1 = minor is Y, major is X.
pub const BLTCON1_SUD: u16 = 0x0010;

/// What the blitter's registers hold.
#[verifier::ext_equal]
pub struct BlitRegs {
    pub con0: u16,
    pub con1: u16,
    pub afwm: u16,
    pub alwm: u16,
    pub pt: Seq<u32>,
    pub modulo: Seq<i16>,
    pub dat: Seq<u16>,
    pub ddat: u16,
    pub width: u16,
    pub height: u16,
    pub zero: bool,
    pub pending: bool,
}

impl BlitRegs {
    /// Whether `BLTCON0` enables the channel with this enable bit.
    pub open spec fn uses(self, channel: u16) -> bool {
        self.con0 & channel != 0
    }

    /// Whether a `BLTCON1` flag is set.
    pub open spec fn mode(self, flag: u16) -> bool {
        self.con1 & flag != 0
    }

    /// The minterm select byte.
    pub open spec fn lf(self) -> u8 {
        be::lo8(self.con0)
    }

    /// The A shift, `BLTCON0` bits 12-15.
    pub open spec fn ash(self) -> u16 {
        self.con0 / 0x1000
    }

    /// The B shift, `BLTCON1` bits 12-15.
    pub open spec fn bsh(self) -> u16 {
        self.con1 / 0x1000
    }

    /// The registers after a pointer's high half is written: the DMA
    /// pointers are 21 bits wide, so only five bits are implemented.
    pub open spec fn with_ptr_hi(self, channel: int, value: u16) -> BlitRegs {
        BlitRegs {
            pt: self.pt.update(channel, be::be32(value % 32, be::lo16(self.pt[channel]))),
            ..self
        }
    }

    /// The registers after a pointer's low half is written: pointers are
    /// word-aligned, so bit 0 is dropped.
    pub open spec fn with_ptr_lo(self, channel: int, value: u16) -> BlitRegs {
        BlitRegs {
            pt: self.pt.update(
                channel,
                be::be32(be::hi16(self.pt[channel]), (value - value % 2) as u16),
            ),
            ..self
        }
    }

    pub open spec fn with_modulo(self, channel: int, value: u16) -> BlitRegs {
        BlitRegs { modulo: self.modulo.update(channel, be::signed16(value)), ..self }
    }

    pub open spec fn with_dat(self, channel: int, value: u16) -> BlitRegs {
        BlitRegs { dat: self.dat.update(channel, value), ..self }
    }

    /// The registers after `value` is written at `offset`.
    pub open spec fn written(self, offset: u16, value: u16) -> BlitRegs {
        if offset == reg::BLTCON0 {
            BlitRegs { con0: value, ..self }
        } else if offset == reg::BLTCON1 {
            BlitRegs { con1: value, ..self }
        } else if offset == reg::BLTCON0L {
            BlitRegs { con0: be::be16(be::hi8(self.con0), be::lo8(value)), ..self }
        } else if offset == reg::BLTAFWM {
            BlitRegs { afwm: value, ..self }
        } else if offset == reg::BLTALWM {
            BlitRegs { alwm: value, ..self }
        } else if offset == reg::BLTAPTH {
            self.with_ptr_hi(CHAN_A as int, value)
        } else if offset == reg::BLTAPTL {
            self.with_ptr_lo(CHAN_A as int, value)
        } else if offset == reg::BLTBPTH {
            self.with_ptr_hi(CHAN_B as int, value)
        } else if offset == reg::BLTBPTL {
            self.with_ptr_lo(CHAN_B as int, value)
        } else if offset == reg::BLTCPTH {
            self.with_ptr_hi(CHAN_C as int, value)
        } else if offset == reg::BLTCPTL {
            self.with_ptr_lo(CHAN_C as int, value)
        } else if offset == reg::BLTDPTH {
            self.with_ptr_hi(CHAN_D as int, value)
        } else if offset == reg::BLTDPTL {
            self.with_ptr_lo(CHAN_D as int, value)
        } else if offset == reg::BLTAMOD {
            self.with_modulo(CHAN_A as int, value)
        } else if offset == reg::BLTBMOD {
            self.with_modulo(CHAN_B as int, value)
        } else if offset == reg::BLTCMOD {
            self.with_modulo(CHAN_C as int, value)
        } else if offset == reg::BLTDMOD {
            self.with_modulo(CHAN_D as int, value)
        } else if offset == reg::BLTADAT {
            self.with_dat(CHAN_A as int, value)
        } else if offset == reg::BLTBDAT {
            self.with_dat(CHAN_B as int, value)
        } else if offset == reg::BLTCDAT {
            self.with_dat(CHAN_C as int, value)
        } else if offset == reg::BLTSIZE {
            BlitRegs {
                height: if value / 64 == 0 {
                    1024
                } else {
                    value / 64
                },
                width: if value % 64 == 0 {
                    64
                } else {
                    value % 64
                },
                pending: true,
                ..self
            }
        } else if offset == reg::BLTSIZV {
            BlitRegs { height: value % 0x8000, ..self }
        } else if offset == reg::BLTSIZH {
            BlitRegs { width: value % 0x0800, pending: true, ..self }
        } else {
            self
        }
    }

    /// The registers and chip RAM after the armed blit has run.
    pub open spec fn blitted(self, ram: Seq<u8>) -> (BlitRegs, Seq<u8>) {
        let started = BlitRegs { pending: false, zero: true, ..self };
        if self.mode(BLTCON1_LINE) {
            line::line_result(started, ram)
        } else {
            area::area_result(started, ram)
        }
    }
}

/// The blitter's register file and status.
pub struct Blitter {
    pub bltcon0: u16,
    pub bltcon1: u16,
    /// First- and last-word masks applied to channel A.
    pub bltafwm: u16,
    pub bltalwm: u16,
    /// Channel pointers, indexed by `CHAN_*`.
    pub pt: [u32; 4],
    /// Per-channel modulo, added to the pointer at the end of each row.
    /// Signed: a negative modulo is ordinary and the OS uses it.
    pub modulo: [i16; 4],
    /// Per-channel data registers.
    pub dat: [u16; 4],
    /// Destination data, read back through `BLTDDAT`.
    pub bltddat: u16,
    /// Blit dimensions, from `BLTSIZE` or the `BLTSIZV`/`BLTSIZH` pair.
    pub width_words: u16,
    pub height_rows: u16,
    /// Set when the last completed blit wrote only zeroes.
    pub zero: bool,
    /// A blit has been armed by a size write and is waiting for the bus to
    /// run it (the bus owns chip RAM; see [`Blitter::execute`]).
    pub pending: bool,
}

impl View for Blitter {
    type V = BlitRegs;

    open spec fn view(&self) -> BlitRegs {
        BlitRegs {
            con0: self.bltcon0,
            con1: self.bltcon1,
            afwm: self.bltafwm,
            alwm: self.bltalwm,
            pt: self.pt@,
            modulo: self.modulo@,
            dat: self.dat@,
            ddat: self.bltddat,
            width: self.width_words,
            height: self.height_rows,
            zero: self.zero,
            pending: self.pending,
        }
    }
}

impl Default for Blitter {
    /// Every register clear.
    fn default() -> (blitter: Self)
        ensures
            blitter@ == (BlitRegs {
                con0: 0,
                con1: 0,
                afwm: 0,
                alwm: 0,
                pt: seq![0u32, 0, 0, 0],
                modulo: seq![0i16, 0, 0, 0],
                dat: seq![0u16, 0, 0, 0],
                ddat: 0,
                width: 0,
                height: 0,
                zero: false,
                pending: false,
            }),
    {
        Blitter {
            bltcon0: 0,
            bltcon1: 0,
            bltafwm: 0,
            bltalwm: 0,
            pt: [0, 0, 0, 0],
            modulo: [0, 0, 0, 0],
            dat: [0, 0, 0, 0],
            bltddat: 0,
            width_words: 0,
            height_rows: 0,
            zero: false,
            pending: false,
        }
    }
}

impl Blitter {
    /// A just-reset blitter. `BZERO` reads set before any blit has run: the
    /// (nonexistent) last result was trivially all-zero.
    pub fn new() -> (blitter: Self)
        ensures
            blitter@ == (BlitRegs {
                con0: 0,
                con1: 0,
                afwm: 0,
                alwm: 0,
                pt: seq![0u32, 0, 0, 0],
                modulo: seq![0i16, 0, 0, 0],
                dat: seq![0u16, 0, 0, 0],
                ddat: 0,
                width: 0,
                height: 0,
                zero: true,
                pending: false,
            }),
    {
        let mut blitter: Blitter = Blitter::default();
        blitter.zero = true;
        blitter
    }

    /// Status bits this blitter contributes to a `DMACONR` read.
    pub fn dmaconr_bits(&self) -> (bits: u16)
        ensures
            bits == (if self.zero {
                DMACONR_BZERO
            } else {
                0
            }),
    {
        if self.zero {
            DMACONR_BZERO
        } else {
            0
        }
    }

    /// Read a blitter register. Only `BLTDDAT` is readable; every other
    /// blitter register is write-only and reads open bus like the rest of
    /// the write-only chipset registers.
    pub fn read(&mut self, offset: u16) -> (value: u16)
        ensures
            *final(self) == *old(self),
            value == (if offset == reg::BLTDDAT {
                old(self).bltddat
            } else {
                0xFFFF
            }),
    {
        match offset {
            reg::BLTDDAT => self.bltddat,
            _ => 0xFFFF,
        }
    }

    /// Write a blitter register.
    ///
    /// Returns `true` when a blit is armed, which is the bus's cue to call
    /// [`Blitter::execute`]: the blitter needs chip RAM and this struct
    /// deliberately does not own it.
    ///
    /// `BLTSIZE` packs height in bits 6-15 and width in bits 0-5, with zero
    /// in either field meaning the maximum (1024 rows / 64 words). Of the
    /// split-size pair, `BLTSIZV` sets the height and `BLTSIZH` sets the
    /// width and starts the blit.
    pub fn write(&mut self, offset: u16, value: u16) -> (armed: bool)
        ensures
            final(self)@ == old(self)@.written(offset, value),
            armed == final(self).pending,
    {
        match offset {
            reg::BLTCON0 => self.bltcon0 = value,
            reg::BLTCON1 => self.bltcon1 = value,
            reg::BLTCON0L => {
                let (hi, _) = be::split16(self.bltcon0);
                let (_, lo) = be::split16(value);
                self.bltcon0 = be::join16(hi, lo);
            },
            reg::BLTAFWM => self.bltafwm = value,
            reg::BLTALWM => self.bltalwm = value,
            reg::BLTAPTH => self.pt[CHAN_A] = ptr_with_hi(self.pt[CHAN_A], value),
            reg::BLTAPTL => self.pt[CHAN_A] = ptr_with_lo(self.pt[CHAN_A], value),
            reg::BLTBPTH => self.pt[CHAN_B] = ptr_with_hi(self.pt[CHAN_B], value),
            reg::BLTBPTL => self.pt[CHAN_B] = ptr_with_lo(self.pt[CHAN_B], value),
            reg::BLTCPTH => self.pt[CHAN_C] = ptr_with_hi(self.pt[CHAN_C], value),
            reg::BLTCPTL => self.pt[CHAN_C] = ptr_with_lo(self.pt[CHAN_C], value),
            reg::BLTDPTH => self.pt[CHAN_D] = ptr_with_hi(self.pt[CHAN_D], value),
            reg::BLTDPTL => self.pt[CHAN_D] = ptr_with_lo(self.pt[CHAN_D], value),
            reg::BLTAMOD => self.modulo[CHAN_A] = be::to_signed16(value),
            reg::BLTBMOD => self.modulo[CHAN_B] = be::to_signed16(value),
            reg::BLTCMOD => self.modulo[CHAN_C] = be::to_signed16(value),
            reg::BLTDMOD => self.modulo[CHAN_D] = be::to_signed16(value),
            reg::BLTADAT => self.dat[CHAN_A] = value,
            reg::BLTBDAT => self.dat[CHAN_B] = value,
            reg::BLTCDAT => self.dat[CHAN_C] = value,
            reg::BLTSIZE => {
                let h: u16 = value / 64;
                let w: u16 = value % 64;
                self.height_rows = if h == 0 {
                    1024
                } else {
                    h
                };
                self.width_words = if w == 0 {
                    64
                } else {
                    w
                };
                self.pending = true;
            },
            reg::BLTSIZV => self.height_rows = value % 0x8000,
            reg::BLTSIZH => {
                self.width_words = value % 0x0800;
                self.pending = true;
            },
            _ => {},
        }
        self.pending
    }

    /// Whether a blit is armed and waiting to run.
    pub fn pending(&self) -> (armed: bool)
        ensures
            armed == self.pending,
    {
        self.pending
    }

    /// Run the armed blit against chip RAM, updating `zero` and the channel
    /// pointers as the hardware leaves them.
    ///
    /// Returns `true` if a blit actually ran, which the bus turns into the
    /// blitter-finished interrupt (`INTREQ` bit 6).
    pub fn execute(&mut self, ram: &mut [u8; CHIP_RAM_SIZE]) -> (ran: bool)
        ensures
            ran == old(self).pending,
            ran ==> (final(self)@, final(ram)@) == old(self)@.blitted(old(ram)@),
            !ran ==> *final(self) == *old(self) && final(ram)@ == old(ram)@,
    {
        if !self.pending {
            return false;
        }
        self.pending = false;
        self.zero = true;
        if self.bltcon1 & BLTCON1_LINE != 0 {
            self.execute_line(ram);
        } else {
            self.execute_area(ram);
        }
        true
    }
}

/// A DMA pointer with its high half written.
fn ptr_with_hi(ptr: u32, value: u16) -> (updated: u32)
    ensures
        updated == be::be32(value % 32, be::lo16(ptr)),
{
    let (_, lo) = be::split32(ptr);
    be::join32(value % 32, lo)
}

/// A DMA pointer with its low half written.
fn ptr_with_lo(ptr: u32, value: u16) -> (updated: u32)
    ensures
        updated == be::be32(be::hi16(ptr), (value - value % 2) as u16),
{
    let (hi, _) = be::split32(ptr);
    be::join32(hi, value - value % 2)
}

} // verus!
