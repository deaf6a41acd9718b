//! Area (normal, non-line) mode: minterm combine of A/B/C into D, with the
//! A/B barrel shifters, the A first/last-word masks, per-channel modulos,
//! ascending/descending direction, and inclusive/exclusive fill.

use crate::be;
use crate::blitter::word;
use crate::blitter::{
    BlitRegs, Blitter, BLTCON0_USEA, BLTCON0_USEB, BLTCON0_USEC, BLTCON0_USED, BLTCON1_DESC,
    BLTCON1_EFE, BLTCON1_FCI, BLTCON1_IFE, CHAN_A, CHAN_B, CHAN_C, CHAN_D,
};
use crate::CHIP_RAM_SIZE;
use vstd::prelude::*;

verus! {

/// The sequencer between two words of an area blit: the live channel
/// pointers, the previous words held by the two barrel shifters, the C data
/// register and the fill carry.
#[derive(Clone, Copy)]
pub struct Cursor {
    pub apt: u32,
    pub bpt: u32,
    pub cpt: u32,
    pub dpt: u32,
    pub a_prev: u16,
    pub b_prev: u16,
    pub c_dat: u16,
    pub carry: bool,
}

/// An area blit between two words: chip RAM, the sequencer, and every D
/// word produced so far in order.
#[verifier::ext_equal]
pub struct AreaState {
    pub ram: Seq<u8>,
    pub cur: Cursor,
    pub out: Seq<u16>,
}

/// Bytes a pointer moves per word: forwards ascending, backwards descending.
pub open spec fn word_step(r: BlitRegs) -> i32 {
    if r.mode(BLTCON1_DESC) {
        -2i32
    } else {
        2
    }
}

/// Bytes a channel's pointer moves at the end of a row: its modulo, with
/// bit 0 ignored because pointers are word-aligned, negated descending.
pub open spec fn row_step(r: BlitRegs, channel: int) -> i32 {
    let even = (r.modulo[channel] & !1i16) as int;
    if r.mode(BLTCON1_DESC) {
        (-even) as i32
    } else {
        even as i32
    }
}

/// Fill is only defined descending: the fill sequencer scans each row from
/// its end backwards.
pub open spec fn fills(r: BlitRegs) -> bool {
    r.mode(BLTCON1_DESC) && (r.mode(BLTCON1_IFE) || r.mode(BLTCON1_EFE))
}

/// The A word before masking: fetched, or `BLTADAT` when A is disabled.
pub open spec fn a_raw(r: BlitRegs, s: AreaState) -> u16 {
    if r.uses(BLTCON0_USEA) {
        word::word_at(s.ram, s.cur.apt)
    } else {
        r.dat[CHAN_A as int]
    }
}

/// The A word with the first-word mask on the first word of a row and the
/// last-word mask on the last. Both apply whether or not A is enabled.
pub open spec fn a_masked(r: BlitRegs, s: AreaState, index: int) -> u16 {
    let first = if index == 0 {
        a_raw(r, s) & r.afwm
    } else {
        a_raw(r, s)
    };
    if index + 1 == r.width {
        first & r.alwm
    } else {
        first
    }
}

/// The A operand of the minterm.
pub open spec fn a_operand(r: BlitRegs, s: AreaState, index: int) -> u16 {
    word::shifted_word(s.cur.a_prev, a_masked(r, s, index), r.ash() as u32, r.mode(BLTCON1_DESC))
}

/// The B operand: the shifted fetch, or `BLTBDAT` unshifted when B is
/// disabled (there is no fetched stream to carry a shift across).
pub open spec fn b_operand(r: BlitRegs, s: AreaState) -> u16 {
    if r.uses(BLTCON0_USEB) {
        word::shifted_word(
            s.cur.b_prev,
            word::word_at(s.ram, s.cur.bpt),
            r.bsh() as u32,
            r.mode(BLTCON1_DESC),
        )
    } else {
        r.dat[CHAN_B as int]
    }
}

/// The C operand: the fetch, which also loads `BLTCDAT`, or `BLTCDAT`.
pub open spec fn c_operand(r: BlitRegs, s: AreaState) -> u16 {
    if r.uses(BLTCON0_USEC) {
        word::word_at(s.ram, s.cur.cpt)
    } else {
        s.cur.c_dat
    }
}

/// The D word and the fill carry after it.
pub open spec fn d_word(r: BlitRegs, s: AreaState, index: int) -> (u16, bool) {
    let d = word::minterm_word(r.lf(), a_operand(r, s, index), b_operand(r, s), c_operand(r, s));
    if fills(r) {
        word::filled_word(d, s.cur.carry, r.mode(BLTCON1_IFE), r.mode(BLTCON1_EFE))
    } else {
        (d, s.cur.carry)
    }
}

/// A pointer moved by `step` when its channel is enabled.
pub open spec fn moved(enabled: bool, ptr: u32, step: i32) -> u32 {
    if enabled {
        ptr.wrapping_add_signed(step)
    } else {
        ptr
    }
}

/// The state after word `index` of a row.
pub open spec fn after_word(r: BlitRegs, s: AreaState, index: int) -> AreaState {
    let (d, carry) = d_word(r, s, index);
    AreaState {
        ram: if r.uses(BLTCON0_USED) {
            word::with_word_at(s.ram, s.cur.dpt, d)
        } else {
            s.ram
        },
        cur: Cursor {
            apt: moved(r.uses(BLTCON0_USEA), s.cur.apt, word_step(r)),
            bpt: moved(r.uses(BLTCON0_USEB), s.cur.bpt, word_step(r)),
            cpt: moved(r.uses(BLTCON0_USEC), s.cur.cpt, word_step(r)),
            dpt: moved(r.uses(BLTCON0_USED), s.cur.dpt, word_step(r)),
            a_prev: a_masked(r, s, index),
            b_prev: if r.uses(BLTCON0_USEB) {
                word::word_at(s.ram, s.cur.bpt)
            } else {
                s.cur.b_prev
            },
            c_dat: c_operand(r, s),
            carry,
        },
        out: s.out.push(d),
    }
}

/// The state after the first `n` words of a row.
pub open spec fn after_words(r: BlitRegs, s: AreaState, n: nat) -> AreaState
    decreases n,
{
    if n == 0 {
        s
    } else {
        after_word(r, after_words(r, s, (n - 1) as nat), n - 1)
    }
}

/// A row starts from the programmed fill carry. The barrel shifters are
/// not touched: they carry from one row into the next.
pub open spec fn row_start(r: BlitRegs, s: AreaState) -> AreaState {
    AreaState { cur: Cursor { carry: r.mode(BLTCON1_FCI), ..s.cur }, ..s }
}

/// The modulos move every enabled channel at the end of a row.
pub open spec fn row_end(r: BlitRegs, s: AreaState) -> AreaState {
    AreaState {
        cur: Cursor {
            apt: moved(r.uses(BLTCON0_USEA), s.cur.apt, row_step(r, CHAN_A as int)),
            bpt: moved(r.uses(BLTCON0_USEB), s.cur.bpt, row_step(r, CHAN_B as int)),
            cpt: moved(r.uses(BLTCON0_USEC), s.cur.cpt, row_step(r, CHAN_C as int)),
            dpt: moved(r.uses(BLTCON0_USED), s.cur.dpt, row_step(r, CHAN_D as int)),
            ..s.cur
        },
        ..s
    }
}

/// The state after a whole row.
pub open spec fn after_row(r: BlitRegs, s: AreaState) -> AreaState {
    row_end(r, after_words(r, row_start(r, s), r.width as nat))
}

/// The state after the first `n` rows.
pub open spec fn after_rows(r: BlitRegs, s: AreaState, n: nat) -> AreaState
    decreases n,
{
    if n == 0 {
        s
    } else {
        after_row(r, after_rows(r, s, (n - 1) as nat))
    }
}

/// The state a blit starts from.
pub open spec fn area_start(r: BlitRegs, ram: Seq<u8>) -> AreaState {
    AreaState {
        ram,
        cur: Cursor {
            apt: r.pt[CHAN_A as int],
            bpt: r.pt[CHAN_B as int],
            cpt: r.pt[CHAN_C as int],
            dpt: r.pt[CHAN_D as int],
            a_prev: 0,
            b_prev: 0,
            c_dat: r.dat[CHAN_C as int],
            carry: r.mode(BLTCON1_FCI),
        },
        out: Seq::empty(),
    }
}

/// Whether every word produced is zero.
pub open spec fn all_zero(out: Seq<u16>) -> bool {
    forall|i: int| 0 <= i < out.len() ==> out[i] == 0
}

/// The last word produced, zero when there was none.
pub open spec fn last_word(out: Seq<u16>) -> u16 {
    if out.len() == 0 {
        0
    } else {
        out.last()
    }
}

/// The registers and chip RAM after an area blit.
pub open spec fn area_result(r: BlitRegs, ram: Seq<u8>) -> (BlitRegs, Seq<u8>) {
    let s = after_rows(r, area_start(r, ram), r.height as nat);
    (
        BlitRegs {
            pt: seq![s.cur.apt, s.cur.bpt, s.cur.cpt, s.cur.dpt],
            dat: r.dat.update(CHAN_C as int, s.cur.c_dat),
            ddat: last_word(s.out),
            zero: r.zero && all_zero(s.out),
            ..r
        },
        s.ram,
    )
}

/// Producing one more word keeps "all zero" only if that word is zero.
pub(crate) proof fn lemma_all_zero_push(out: Seq<u16>, d: u16)
    ensures
        all_zero(out.push(d)) == (all_zero(out) && d == 0),
        last_word(out.push(d)) == d,
{
    let longer = out.push(d);
    assert(longer[out.len() as int] == d);
    assert(forall|i: int| 0 <= i < out.len() ==> longer[i] == out[i]);
    if all_zero(longer) {
        assert forall|i: int| 0 <= i < out.len() implies out[i] == 0 by {
            assert(longer[i] == 0);
        }
    }
}

/// Step `ptr` when its channel is enabled.
fn advance(enabled: bool, ptr: u32, step: i32) -> (next: u32)
    ensures
        next == moved(enabled, ptr, step),
{
    if enabled {
        ptr.wrapping_add_signed(step)
    } else {
        ptr
    }
}

/// The end-of-row step of one channel.
fn signed_step(modulo: i16, desc: bool) -> (step: i32)
    ensures
        step == (if desc {
            -((modulo & !1i16) as int)
        } else {
            (modulo & !1i16) as int
        }),
{
    let even: i32 = (modulo & !1i16) as i32;
    if desc {
        -even
    } else {
        even
    }
}

impl Blitter {
    /// Process word `index` of a row and return the D word.
    fn area_word(&self, ram: &mut [u8; CHIP_RAM_SIZE], cur: &mut Cursor, index: u16) -> (d: u16)
        requires
            index < self.width_words,
        ensures
            forall|out: Seq<u16>|
                #![trigger out.push(d)]
                after_word(self@, AreaState { ram: old(ram)@, cur: *old(cur), out }, index as int)
                    == (AreaState { ram: final(ram)@, cur: *final(cur), out: out.push(d) }),
    {
        let ghost s = AreaState { ram: ram@, cur: *cur, out: Seq::empty() };
        let con0: u16 = self.bltcon0;
        let con1: u16 = self.bltcon1;
        let desc = con1 & BLTCON1_DESC != 0;
        let step: i32 = if desc {
            -2
        } else {
            2
        };

        // Channel A: the masks and the shifter apply whether or not USEA is
        // set; a disabled A still contributes BLTADAT through the same
        // masked, shifted pipeline.
        let mut a_masked: u16 = if con0 & BLTCON0_USEA != 0 {
            word::read_word(ram, cur.apt)
        } else {
            self.dat[CHAN_A]
        };
        if index == 0 {
            a_masked = a_masked & self.bltafwm;
        }
        if index + 1 == self.width_words {
            a_masked = a_masked & self.bltalwm;
        }
        let a: u16 = word::shift_combine(cur.a_prev, a_masked, (con0 / 0x1000) as u32, desc);

        let mut b_prev: u16 = cur.b_prev;
        let b: u16 = if con0 & BLTCON0_USEB != 0 {
            let fetched: u16 = word::read_word(ram, cur.bpt);
            b_prev = fetched;
            word::shift_combine(cur.b_prev, fetched, (con1 / 0x1000) as u32, desc)
        } else {
            self.dat[CHAN_B]
        };

        // A C fetch loads BLTCDAT itself.
        let c: u16 = if con0 & BLTCON0_USEC != 0 {
            word::read_word(ram, cur.cpt)
        } else {
            cur.c_dat
        };

        let (_, lf) = be::split16(con0);
        let ife = con1 & BLTCON1_IFE != 0;
        let efe = con1 & BLTCON1_EFE != 0;
        let mut carry: bool = cur.carry;
        let mut d: u16 = word::minterm(lf, a, b, c);
        if desc && (ife || efe) {
            d = word::apply_fill(d, &mut carry, ife, efe);
        }
        assert((d, carry) == d_word(self@, s, index as int));

        if con0 & BLTCON0_USED != 0 {
            word::write_word(ram, cur.dpt, d);
        }
        *cur = Cursor {
            apt: advance(con0 & BLTCON0_USEA != 0, cur.apt, step),
            bpt: advance(con0 & BLTCON0_USEB != 0, cur.bpt, step),
            cpt: advance(con0 & BLTCON0_USEC != 0, cur.cpt, step),
            dpt: advance(con0 & BLTCON0_USED != 0, cur.dpt, step),
            a_prev: a_masked,
            b_prev,
            c_dat: c,
            carry,
        };
        assert forall|out: Seq<u16>| #![trigger out.push(d)] after_word(
            self@,
            AreaState { ram: old(ram)@, cur: *old(cur), out },
            index as int,
        ) == (AreaState { ram: ram@, cur: *cur, out: out.push(d) }) by {
            let t = AreaState { out, ..s };
            assert(a_masked == self::a_masked(self@, t, index as int));
            assert(d_word(self@, t, index as int) == (d, carry));
        }
        d
    }

    /// Move the enabled channels by their modulos at the end of a row.
    fn area_row_end(&self, cur: &mut Cursor)
        ensures
            forall|ram: Seq<u8>, out: Seq<u16>|
                #[trigger] row_end(self@, AreaState { ram, cur: *old(cur), out }) == (AreaState {
                    ram,
                    cur: *final(cur),
                    out,
                }),
    {
        let con0: u16 = self.bltcon0;
        let desc = self.bltcon1 & BLTCON1_DESC != 0;
        cur.apt =
        advance(con0 & BLTCON0_USEA != 0, cur.apt, signed_step(self.modulo[CHAN_A], desc));
        cur.bpt =
        advance(con0 & BLTCON0_USEB != 0, cur.bpt, signed_step(self.modulo[CHAN_B], desc));
        cur.cpt =
        advance(con0 & BLTCON0_USEC != 0, cur.cpt, signed_step(self.modulo[CHAN_C], desc));
        cur.dpt =
        advance(con0 & BLTCON0_USED != 0, cur.dpt, signed_step(self.modulo[CHAN_D], desc));
    }

    /// Run an area blit to completion.
    pub(crate) fn execute_area(&mut self, ram: &mut [u8; CHIP_RAM_SIZE])
        ensures
            (final(self)@, final(ram)@) == area_result(old(self)@, old(ram)@),
    {
        let ghost r = self@;
        let ghost start = area_start(r, ram@);
        let ghost mut out: Seq<u16> = Seq::empty();
        let fci = self.bltcon1 & BLTCON1_FCI != 0;
        let mut cur = Cursor {
            apt: self.pt[CHAN_A],
            bpt: self.pt[CHAN_B],
            cpt: self.pt[CHAN_C],
            dpt: self.pt[CHAN_D],
            a_prev: 0,
            b_prev: 0,
            c_dat: self.dat[CHAN_C],
            carry: fci,
        };
        let mut last_d: u16 = 0;
        let mut zero: bool = self.zero;

        // The barrel shifters are shift registers, not per-row state: the
        // first word of every row after the first shifts in bits from the
        // last word of the row before.
        let mut row: u16 = 0;
        while row < self.height_rows
            invariant
                row <= self.height_rows,
                r == self@,
                fci == r.mode(BLTCON1_FCI),
                (AreaState { ram: ram@, cur, out }) == after_rows(r, start, row as nat),
                zero == (r.zero && all_zero(out)),
                last_d == last_word(out),
            decreases self.height_rows - row,
        {
            let ghost before = AreaState { ram: ram@, cur, out };
            cur.carry = fci;
            let ghost at_row = AreaState { ram: ram@, cur, out };
            let mut index: u16 = 0;
            while index < self.width_words
                invariant
                    index <= self.width_words,
                    r == self@,
                    (AreaState { ram: ram@, cur, out }) == after_words(r, at_row, index as nat),
                    zero == (r.zero && all_zero(out)),
                    last_d == last_word(out),
                decreases self.width_words - index,
            {
                let ghost s = AreaState { ram: ram@, cur, out };
                let d: u16 = self.area_word(ram, &mut cur, index);
                if d != 0 {
                    zero = false;
                }
                last_d = d;
                proof {
                    lemma_all_zero_push(out, d);
                    out = out.push(d);
                    assert(after_words(r, at_row, (index + 1) as nat) == after_word(
                        r,
                        s,
                        index as int,
                    ));
                }
                index += 1;
            }
            self.area_row_end(&mut cur);
            row += 1;
            proof {
                assert(at_row == row_start(r, before));
                assert(after_rows(r, start, row as nat) == after_row(r, before));
            }
        }

        self.pt[CHAN_A] = cur.apt;
        self.pt[CHAN_B] = cur.bpt;
        self.pt[CHAN_C] = cur.cpt;
        self.pt[CHAN_D] = cur.dpt;
        self.dat[CHAN_C] = cur.c_dat;
        self.bltddat = last_d;
        self.zero = zero;
    }
}

} // verus!
