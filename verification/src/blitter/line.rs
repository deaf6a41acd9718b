//! Line mode: Bresenham single-pixel-wide line draw. The blit height carries
//! the pixel count; the width is ignored.
//!
//! Channel usage:
//! - A carries the single-bit texture (`BLTADAT`, typically `$8000`), masked
//!   by `BLTAFWM` and shifted right to the pixel's column within its word.
//! - B optionally carries a dashed/dotted line pattern, rotated one bit per
//!   pixel.
//! - C/D are the read-modify-write destination; `BLTCMOD` is the bitplane's
//!   bytes per row.
//! - `BLTAPT`'s low word is the signed Bresenham error accumulator;
//!   `BLTAMOD`/`BLTBMOD` are the two step deltas (taken when the minor axis
//!   is/isn't stepped this pixel).

use crate::be;
use crate::blitter::area;
use crate::blitter::word;
use crate::blitter::{
    BlitRegs, Blitter, BLTCON0_USEA, BLTCON0_USEB, BLTCON0_USEC, BLTCON1_AUL, BLTCON1_SIGN,
    BLTCON1_SING, BLTCON1_SUD, BLTCON1_SUL, CHAN_A, CHAN_B, CHAN_C, CHAN_D,
};
use crate::CHIP_RAM_SIZE;
use vstd::prelude::*;

verus! {

/// The line sequencer between two pixels. `ash` is the pixel's column in
/// the word that `cpt` addresses, `acc` the error accumulator, `sign` its
/// latched sign, `one_dot` whether a dot has been drawn on this scan line,
/// and `bdat`/`bsh` the rotating line pattern and its phase.
#[derive(Clone, Copy)]
pub struct LineCursor {
    pub bpt: u32,
    pub cpt: u32,
    pub dpt: u32,
    pub ash: u16,
    pub acc: u16,
    pub sign: bool,
    pub one_dot: bool,
    pub bdat: u16,
    pub bsh: u16,
    pub c_dat: u16,
}

/// A line blit between two pixels: chip RAM, the sequencer, and every D
/// word produced so far in order.
#[verifier::ext_equal]
pub struct LineState {
    pub ram: Seq<u8>,
    pub cur: LineCursor,
    pub out: Seq<u16>,
}

/// Whether the accumulator reads as a negative number.
pub open spec fn negative(acc: u16) -> bool {
    acc >= 0x8000
}

/// One pixel left or right: the column moves, and the word pointer rolls
/// over to the neighbouring word at either end.
pub open spec fn step_x(cur: LineCursor, left: bool) -> LineCursor {
    if left {
        if cur.ash == 0 {
            LineCursor { cpt: cur.cpt.wrapping_sub(2), ash: 15, ..cur }
        } else {
            LineCursor { ash: (cur.ash - 1) as u16, ..cur }
        }
    } else {
        if cur.ash == 15 {
            LineCursor { cpt: cur.cpt.wrapping_add(2), ash: 0, ..cur }
        } else {
            LineCursor { ash: (cur.ash + 1) as u16, ..cur }
        }
    }
}

/// One pixel up or down: the word pointer moves by a bitplane row and the
/// new scan line has no dot yet.
pub open spec fn step_y(r: BlitRegs, cur: LineCursor, up: bool) -> LineCursor {
    let row = r.modulo[CHAN_C as int] as int;
    LineCursor {
        cpt: cur.cpt.wrapping_add_signed(
            if up {
                -row
            } else {
                row
            } as i32,
        ),
        one_dot: false,
        ..cur
    }
}

/// The minor-axis step: `SUD` picks the axis, `SUL` its direction.
pub open spec fn step_sometimes(r: BlitRegs, cur: LineCursor) -> LineCursor {
    if r.mode(BLTCON1_SUD) {
        step_y(r, cur, r.mode(BLTCON1_SUL))
    } else {
        step_x(cur, r.mode(BLTCON1_SUL))
    }
}

/// The major-axis step: `SUD` picks the axis, `AUL` its direction.
pub open spec fn step_always(r: BlitRegs, cur: LineCursor) -> LineCursor {
    if r.mode(BLTCON1_SUD) {
        step_x(cur, r.mode(BLTCON1_AUL))
    } else {
        step_y(r, cur, r.mode(BLTCON1_AUL))
    }
}

/// The pattern word used for this pixel: freshly fetched and rotated when B
/// is enabled, else the one carried over.
pub open spec fn pattern(r: BlitRegs, s: LineState) -> u16 {
    if r.uses(BLTCON0_USEB) {
        word::rotated_right(word::word_at(s.ram, s.cur.bpt), s.cur.bsh)
    } else {
        s.cur.bdat
    }
}

/// The C operand of the minterm.
pub open spec fn background(r: BlitRegs, s: LineState) -> u16 {
    if r.uses(BLTCON0_USEC) {
        word::word_at(s.ram, s.cur.cpt)
    } else {
        s.cur.c_dat
    }
}

/// The D word of this pixel.
pub open spec fn pixel_word(r: BlitRegs, s: LineState) -> u16 {
    word::minterm_word(
        r.lf(),
        (r.dat[CHAN_A as int] & r.afwm) >> s.cur.ash,
        if pattern(r, s) & 1 != 0 {
            0xFFFF
        } else {
            0
        },
        background(r, s),
    )
}

/// Whether this pixel is stored: C must be enabled, and single-dot mode
/// locks every store after the first on a scan line. A locked pixel still
/// runs the shifter, the minterm and the zero detection.
pub open spec fn stores(r: BlitRegs, s: LineState) -> bool {
    r.uses(BLTCON0_USEC) && (!r.mode(BLTCON1_SING) || !s.cur.one_dot)
}

/// The accumulator after this pixel; it only advances with A enabled.
pub open spec fn next_acc(r: BlitRegs, s: LineState) -> u16 {
    if r.uses(BLTCON0_USEA) {
        s.cur.acc.wrapping_add(
            be::unsigned16(
                if s.cur.sign {
                    r.modulo[CHAN_B as int]
                } else {
                    r.modulo[CHAN_A as int]
                },
            ),
        )
    } else {
        s.cur.acc
    }
}

/// The sequencer after the minor step (taken while the error is
/// non-negative) and the major step.
pub open spec fn walked(r: BlitRegs, cur: LineCursor) -> LineCursor {
    let dotted = LineCursor { one_dot: true, ..cur };
    step_always(
        r,
        if cur.sign {
            dotted
        } else {
            step_sometimes(r, dotted)
        },
    )
}

/// The state after one pixel.
pub open spec fn after_pixel(r: BlitRegs, s: LineState) -> LineState {
    let moved = walked(r, s.cur);
    LineState {
        ram: if stores(r, s) {
            word::with_word_at(s.ram, s.cur.dpt, pixel_word(r, s))
        } else {
            s.ram
        },
        cur: LineCursor {
            bpt: if r.uses(BLTCON0_USEB) {
                s.cur.bpt.wrapping_add_signed(r.modulo[CHAN_B as int] as i32)
            } else {
                s.cur.bpt
            },
            cpt: moved.cpt,
            dpt: moved.cpt,
            ash: moved.ash,
            acc: next_acc(r, s),
            sign: negative(next_acc(r, s)),
            one_dot: moved.one_dot,
            bdat: word::rotated_left_once(pattern(r, s)),
            bsh: ((s.cur.bsh + 15) % 16) as u16,
            c_dat: background(r, s),
        },
        out: s.out.push(pixel_word(r, s)),
    }
}

/// The state after the first `n` pixels.
pub open spec fn after_pixels(r: BlitRegs, s: LineState, n: nat) -> LineState
    decreases n,
{
    if n == 0 {
        s
    } else {
        after_pixel(r, after_pixels(r, s, (n - 1) as nat))
    }
}

/// The state a line starts from.
pub open spec fn line_start(r: BlitRegs, ram: Seq<u8>) -> LineState {
    LineState {
        ram,
        cur: LineCursor {
            bpt: r.pt[CHAN_B as int],
            cpt: r.pt[CHAN_C as int],
            dpt: r.pt[CHAN_D as int],
            ash: r.ash(),
            acc: be::lo16(r.pt[CHAN_A as int]),
            sign: r.mode(BLTCON1_SIGN),
            one_dot: false,
            bdat: word::rotated_right(r.dat[CHAN_B as int], r.bsh()),
            bsh: r.bsh(),
            c_dat: r.dat[CHAN_C as int],
        },
        out: Seq::empty(),
    }
}

/// `BLTCON1` after a line: the sign flag and the pattern phase written back.
pub open spec fn line_con1(con1: u16, cur: LineCursor) -> u16 {
    let cleared = con1 & !BLTCON1_SIGN;
    let signed = if negative(cur.acc) {
        cleared | BLTCON1_SIGN
    } else {
        cleared
    };
    (signed % 0x1000 + cur.bsh * 0x1000) as u16
}

/// The registers and chip RAM after a line blit.
pub open spec fn line_result(r: BlitRegs, ram: Seq<u8>) -> (BlitRegs, Seq<u8>) {
    let s = after_pixels(r, line_start(r, ram), r.height as nat);
    (
        BlitRegs {
            con0: (r.con0 % 0x1000 + s.cur.ash * 0x1000) as u16,
            con1: line_con1(r.con1, s.cur),
            pt: seq![
                be::be32(be::hi16(r.pt[CHAN_A as int]), s.cur.acc),
                s.cur.bpt,
                s.cur.cpt,
                s.cur.dpt,
            ],
            dat: r.dat.update(CHAN_C as int, s.cur.c_dat),
            ddat: area::last_word(s.out),
            zero: r.zero && area::all_zero(s.out),
            ..r
        },
        s.ram,
    )
}

/// Step one pixel horizontally.
fn line_step_x(cur: &mut LineCursor, left: bool)
    requires
        old(cur).ash < 16,
    ensures
        *final(cur) == step_x(*old(cur), left),
        final(cur).ash < 16,
{
    if left {
        if cur.ash == 0 {
            cur.cpt = cur.cpt.wrapping_sub(2);
            cur.ash = 15;
        } else {
            cur.ash = cur.ash - 1;
        }
    } else {
        if cur.ash == 15 {
            cur.cpt = cur.cpt.wrapping_add(2);
            cur.ash = 0;
        } else {
            cur.ash = cur.ash + 1;
        }
    }
}

impl Blitter {
    /// Step one pixel vertically.
    fn line_step_y(&self, cur: &mut LineCursor, up: bool)
        ensures
            *final(cur) == step_y(self@, *old(cur), up),
    {
        let row: i32 = self.modulo[CHAN_C] as i32;
        let delta: i32 = if up {
            -row
        } else {
            row
        };
        cur.cpt = cur.cpt.wrapping_add_signed(delta);
        cur.one_dot = false;
    }

    /// The "sometimes" (minor-axis) Bresenham step.
    fn line_step_sometimes(&self, cur: &mut LineCursor)
        requires
            old(cur).ash < 16,
        ensures
            *final(cur) == step_sometimes(self@, *old(cur)),
            final(cur).ash < 16,
    {
        let back = self.bltcon1 & BLTCON1_SUL != 0;
        if self.bltcon1 & BLTCON1_SUD != 0 {
            self.line_step_y(cur, back);
        } else {
            line_step_x(cur, back);
        }
    }

    /// The "always" (major-axis) Bresenham step.
    fn line_step_always(&self, cur: &mut LineCursor)
        requires
            old(cur).ash < 16,
        ensures
            *final(cur) == step_always(self@, *old(cur)),
            final(cur).ash < 16,
    {
        let back = self.bltcon1 & BLTCON1_AUL != 0;
        if self.bltcon1 & BLTCON1_SUD != 0 {
            line_step_x(cur, back);
        } else {
            self.line_step_y(cur, back);
        }
    }

    /// Draw one pixel and return its D word.
    fn line_pixel(&self, ram: &mut [u8; CHIP_RAM_SIZE], cur: &mut LineCursor) -> (d: u16)
        requires
            old(cur).ash < 16,
            old(cur).bsh < 16,
        ensures
            final(cur).ash < 16,
            final(cur).bsh < 16,
            forall|out: Seq<u16>|
                #![trigger out.push(d)]
                after_pixel(self@, LineState { ram: old(ram)@, cur: *old(cur), out })
                    == (LineState { ram: final(ram)@, cur: *final(cur), out: out.push(d) }),
    {
        let ghost s = LineState { ram: ram@, cur: *cur, out: Seq::empty() };
        let con0: u16 = self.bltcon0;
        let use_c = con0 & BLTCON0_USEC != 0;

        if con0 & BLTCON0_USEB != 0 {
            let fetched: u16 = word::read_word(ram, cur.bpt);
            cur.bpt = cur.bpt.wrapping_add_signed(self.modulo[CHAN_B] as i32);
            cur.bdat = word::rotate_right(fetched, cur.bsh);
        }
        let visible = !(self.bltcon1 & BLTCON1_SING != 0) || !cur.one_dot;
        let a_shifted: u16 = (self.dat[CHAN_A] & self.bltafwm) >> cur.ash;
        cur.one_dot = true;
        let b_shifted: u16 = if cur.bdat & 1 != 0 {
            0xFFFF
        } else {
            0
        };
        if use_c {
            cur.c_dat = word::read_word(ram, cur.cpt);
        }
        let (_, lf) = be::split16(con0);
        let d: u16 = word::minterm(lf, a_shifted, b_shifted, cur.c_dat);
        assert(d == pixel_word(self@, s));

        if !cur.sign {
            self.line_step_sometimes(cur);
        }
        if con0 & BLTCON0_USEA != 0 {
            let delta: i16 = if cur.sign {
                self.modulo[CHAN_B]
            } else {
                self.modulo[CHAN_A]
            };
            cur.acc = cur.acc.wrapping_add(be::to_unsigned16(delta));
        }
        self.line_step_always(cur);
        cur.sign = cur.acc >= 0x8000;

        if use_c && visible {
            word::write_word(ram, cur.dpt, d);
        }
        cur.dpt = cur.cpt;
        cur.bdat = word::rotate_left_once(cur.bdat);
        cur.bsh = (cur.bsh + 15) % 16;
        assert forall|out: Seq<u16>| #![trigger out.push(d)] after_pixel(
            self@,
            LineState { ram: old(ram)@, cur: *old(cur), out },
        ) == (LineState { ram: ram@, cur: *cur, out: out.push(d) }) by {
            let t = LineState { out, ..s };
            assert(pixel_word(self@, t) == d);
        }
        d
    }

    /// Run a line blit to completion.
    pub(crate) fn execute_line(&mut self, ram: &mut [u8; CHIP_RAM_SIZE])
        ensures
            (final(self)@, final(ram)@) == line_result(old(self)@, old(ram)@),
    {
        let ghost r = self@;
        let ghost start = line_start(r, ram@);
        let ghost mut out: Seq<u16> = Seq::empty();
        let bsh: u16 = self.bltcon1 / 0x1000;
        let (acc_hi, acc_lo) = be::split32(self.pt[CHAN_A]);
        let mut cur = LineCursor {
            bpt: self.pt[CHAN_B],
            cpt: self.pt[CHAN_C],
            dpt: self.pt[CHAN_D],
            ash: self.bltcon0 / 0x1000,
            acc: acc_lo,
            sign: self.bltcon1 & BLTCON1_SIGN != 0,
            one_dot: false,
            bdat: word::rotate_right(self.dat[CHAN_B], bsh),
            bsh,
            c_dat: self.dat[CHAN_C],
        };
        let mut last_d: u16 = 0;
        let mut zero: bool = self.zero;

        let mut n: u16 = 0;
        while n < self.height_rows
            invariant
                n <= self.height_rows,
                r == self@,
                cur.ash < 16,
                cur.bsh < 16,
                (LineState { ram: ram@, cur, out }) == after_pixels(r, start, n as nat),
                zero == (r.zero && area::all_zero(out)),
                last_d == area::last_word(out),
            decreases self.height_rows - n,
        {
            let ghost s = LineState { ram: ram@, cur, out };
            let d: u16 = self.line_pixel(ram, &mut cur);
            if d != 0 {
                zero = false;
            }
            last_d = d;
            n += 1;
            proof {
                area::lemma_all_zero_push(out, d);
                out = out.push(d);
                assert(after_pixels(r, start, n as nat) == after_pixel(r, s));
            }
        }

        let mut con1: u16 = self.bltcon1 & !BLTCON1_SIGN;
        if cur.acc >= 0x8000 {
            con1 = con1 | BLTCON1_SIGN;
        }
        self.bltcon1 = con1 % 0x1000 + cur.bsh * 0x1000;
        self.bltcon0 = self.bltcon0 % 0x1000 + cur.ash * 0x1000;
        self.pt[CHAN_A] = be::join32(acc_hi, cur.acc);
        self.pt[CHAN_B] = cur.bpt;
        self.pt[CHAN_C] = cur.cpt;
        self.pt[CHAN_D] = cur.dpt;
        self.dat[CHAN_C] = cur.c_dat;
        self.bltddat = last_d;
        self.zero = zero;
    }
}

} // verus!
