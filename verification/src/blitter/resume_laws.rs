//! What a blit leaves in its registers: enough to go on from where it
//! stopped.

use crate::be;
use crate::blitter::area;
use crate::blitter::area::AreaState;
use crate::blitter::line;
use crate::blitter::line::LineState;
use crate::blitter::word;
use crate::blitter::{
    BlitRegs, BLTCON0_USEA, BLTCON0_USEB, BLTCON0_USEC, BLTCON1_AUL, BLTCON1_LINE,
    BLTCON1_SING, BLTCON1_SUD, BLTCON1_SUL,
};
use vstd::prelude::*;

verus! {

/// Whether two sets of registers draw alike from the same sequencer.
spec fn alike(r: BlitRegs, q: BlitRegs) -> bool {
    &&& r.con0 % 0x1000 == q.con0 % 0x1000
    &&& r.uses(BLTCON0_USEA) == q.uses(BLTCON0_USEA)
    &&& r.uses(BLTCON0_USEB) == q.uses(BLTCON0_USEB)
    &&& r.uses(BLTCON0_USEC) == q.uses(BLTCON0_USEC)
    &&& r.mode(BLTCON1_SING) == q.mode(BLTCON1_SING)
    &&& r.mode(BLTCON1_AUL) == q.mode(BLTCON1_AUL)
    &&& r.mode(BLTCON1_SUL) == q.mode(BLTCON1_SUL)
    &&& r.mode(BLTCON1_SUD) == q.mode(BLTCON1_SUD)
    &&& r.afwm == q.afwm
    &&& r.modulo == q.modulo
    &&& r.dat[0] == q.dat[0]
}

/// Whether two lines stand at the same place and have drawn the same.
spec fn level(r: BlitRegs, s: LineState, t: LineState) -> bool {
    &&& s.ram == t.ram
    &&& s.cur.bpt == t.cur.bpt
    &&& s.cur.cpt == t.cur.cpt
    &&& s.cur.dpt == t.cur.dpt
    &&& s.cur.ash == t.cur.ash
    &&& s.cur.acc == t.cur.acc
    &&& s.cur.sign == t.cur.sign
    &&& s.cur.bsh == t.cur.bsh
    &&& s.cur.c_dat == t.cur.c_dat
    &&& !r.uses(BLTCON0_USEB) ==> s.cur.bdat == t.cur.bdat
}

proof fn lemma_step(r: BlitRegs, q: BlitRegs, s: LineState, t: LineState)
    requires
        alike(r, q),
        level(r, s, t),
        !r.mode(BLTCON1_SING),
    ensures
        level(r, line::after_pixel(r, s), line::after_pixel(q, t)),
{
    assert(r.lf() == q.lf()) by {
        assert(r.con0 % 256 == r.con0 % 0x1000 % 256);
        assert(q.con0 % 256 == q.con0 % 0x1000 % 256);
    }
    assert(line::pattern(r, s) == line::pattern(q, t));
    assert(line::background(r, s) == line::background(q, t));
    assert(line::pixel_word(r, s) == line::pixel_word(q, t));
    assert(line::next_acc(r, s) == line::next_acc(q, t));
}

proof fn lemma_steps(r: BlitRegs, q: BlitRegs, s: LineState, t: LineState, n: nat)
    requires
        alike(r, q),
        level(r, s, t),
        !r.mode(BLTCON1_SING),
    ensures
        level(r, line::after_pixels(r, s, n), line::after_pixels(q, t, n)),
    decreases n,
{
    if n > 0 {
        let m = (n - 1) as nat;
        lemma_steps(r, q, s, t, m);
        lemma_step(r, q, line::after_pixels(r, s, m), line::after_pixels(q, t, m));
    }
}

proof fn lemma_split(r: BlitRegs, s: LineState, m: nat, n: nat)
    ensures
        line::after_pixels(r, s, m + n) == line::after_pixels(
            r,
            line::after_pixels(r, s, m),
            n,
        ),
    decreases n,
{
    if n > 0 {
        lemma_split(r, s, m, (n - 1) as nat);
        assert((m + n - 1) as nat == m + (n - 1) as nat);
    }
}

/// What the written-back control words hold.
proof fn lemma_controls(c: u16, a: u16, x: u16, b: u16, negative: bool, d: u16)
    by (bit_vector)
    requires
        a < 16,
        b < 16,
    ensures
        ((c % 0x1000 + a * 0x1000) as u16) & 0x0800 == c & 0x0800,
        ((c % 0x1000 + a * 0x1000) as u16) & 0x0400 == c & 0x0400,
        ((c % 0x1000 + a * 0x1000) as u16) & 0x0200 == c & 0x0200,
        (((if negative {
            (x & !0x0040u16) | 0x0040
        } else {
            x & !0x0040u16
        }) % 0x1000 + b * 0x1000) as u16) & 0x001F == x & 0x001F,
        ((((if negative {
            (x & !0x0040u16) | 0x0040
        } else {
            x & !0x0040u16
        }) % 0x1000 + b * 0x1000) as u16) & 0x0040 != 0) == negative,
        ((((if negative {
            (x & !0x0040u16) | 0x0040
        } else {
            x & !0x0040u16
        }) % 0x1000 + b * 0x1000) as u16) & !0x0040u16) % 0x1000 == (x & !0x0040u16) % 0x1000,
        (((((if negative {
            (x & !0x0040u16) | 0x0040
        } else {
            x & !0x0040u16
        }) % 0x1000 + b * 0x1000) as u16) & !0x0040u16) | 0x0040) % 0x1000 == ((x & !0x0040u16)
            | 0x0040) % 0x1000,
        word::rotated_left_once(word::rotated_right(d, b)) == word::rotated_right(
            d,
            ((b + 15) % 16) as u16,
        ),
{
}

/// The flags of a control word are those of its low five bits.
proof fn lemma_flags(x: u16, y: u16)
    by (bit_vector)
    requires
        x & 0x001F == y & 0x001F,
    ensures
        x & 0x0001 == y & 0x0001,
        x & 0x0002 == y & 0x0002,
        x & 0x0004 == y & 0x0004,
        x & 0x0008 == y & 0x0008,
        x & 0x0010 == y & 0x0010,
{
}

/// The sequencer of a line that has drawn `m` pixels.
proof fn lemma_underway(r: BlitRegs, ram: Seq<u8>, m: nat)
    ensures
        ({
            let s = line::after_pixels(r, line::line_start(r, ram), m);
            &&& s.cur.ash < 16
            &&& s.cur.bsh < 16
            &&& m > 0 ==> s.cur.sign == line::negative(s.cur.acc)
            &&& !r.uses(BLTCON0_USEB) ==> s.cur.bdat == word::rotated_right(r.dat[1], s.cur.bsh)
        }),
    decreases m,
{
    if m > 0 {
        lemma_underway(r, ram, (m - 1) as nat);
        let s = line::after_pixels(r, line::line_start(r, ram), (m - 1) as nat);
        lemma_controls(0, 0, 0, s.cur.bsh, false, r.dat[1]);
    }
}

/// The registers a line leaves put a new one where it stopped.
proof fn lemma_restart(r: BlitRegs, ram: Seq<u8>, m: nat, q: BlitRegs)
    requires
        r.dat.len() == 4,
        r.pt.len() == 4,
        m > 0,
        ({
            let s = line::after_pixels(r, line::line_start(r, ram), m);
            &&& q.con0 == (r.con0 % 0x1000 + s.cur.ash * 0x1000) as u16
            &&& q.con1 == line::line_con1(r.con1, s.cur)
            &&& q.pt == seq![
                be::be32(be::hi16(r.pt[0]), s.cur.acc),
                s.cur.bpt,
                s.cur.cpt,
                s.cur.dpt,
            ]
            &&& q.dat == r.dat.update(2, s.cur.c_dat)
            &&& q.afwm == r.afwm
            &&& q.modulo == r.modulo
        }),
    ensures
        ({
            let s = line::after_pixels(r, line::line_start(r, ram), m);
            &&& alike(r, q)
            &&& level(r, s, line::line_start(q, s.ram))
            &&& r.mode(BLTCON1_LINE) == q.mode(BLTCON1_LINE)
        }),
{
    let s = line::after_pixels(r, line::line_start(r, ram), m);
    lemma_underway(r, ram, m);
    lemma_controls(r.con0, s.cur.ash, r.con1, s.cur.bsh, line::negative(s.cur.acc), 0);
    lemma_flags(r.con1, q.con1);
    assert(q.con1 / 0x1000 == s.cur.bsh);
    assert(q.con0 / 0x1000 == s.cur.ash);
}

/// A line can be stopped and resumed: drawing `m` pixels, then writing no
/// register but the size and drawing `n` more, leaves RAM, pointers, error,
/// shift, sign, pattern phase and data exactly as drawing `m + n` at once
/// does. (Single-dot mode is left out: a new line always starts with a dot.)
pub proof fn a_line_can_be_resumed(r: BlitRegs, ram: Seq<u8>, m: u16, n: u16)
    requires
        r.dat.len() == 4,
        r.pt.len() == 4,
        r.con1 & 0x0001 != 0,
        r.con1 & 0x0002 == 0,
        m > 0,
        m + n <= u16::MAX,
    ensures
        ({
            let (half, drawn) = (BlitRegs { height: m, ..r }).blitted(ram);
            let (end, all) = (BlitRegs { height: n, ..half }).blitted(drawn);
            let (once, whole) = (BlitRegs { height: (m + n) as u16, ..r }).blitted(ram);
            &&& all == whole
            &&& end.con0 == once.con0
            &&& end.con1 == once.con1
            &&& end.pt == once.pt
            &&& end.dat == once.dat
        }),
{
    let first = BlitRegs { height: m, ..r };
    let a = BlitRegs { pending: false, zero: true, ..first };
    let (half, drawn) = first.blitted(ram);
    let b = BlitRegs { height: n, pending: false, zero: true, ..half };
    let c = BlitRegs { height: (m + n) as u16, pending: false, zero: true, ..r };
    let start = line::line_start(a, ram);
    assert(line::line_start(c, ram) == start);
    let s = line::after_pixels(a, start, m as nat);
    lemma_restart(a, ram, m as nat, b);
    lemma_split(a, start, m as nat, n as nat);
    lemma_steps(a, b, s, line::line_start(b, drawn), n as nat);
    lemma_steps(a, c, start, start, (m + n) as nat);
    let x = line::after_pixels(b, line::line_start(b, drawn), n as nat);
    let y = line::after_pixels(c, start, (m + n) as nat);
    assert(level(a, x, y));
    lemma_controls(r.con0, s.cur.ash, r.con1, s.cur.bsh, line::negative(s.cur.acc), 0);
    assert(half.con1 == line::line_con1(r.con1, s.cur));
    let (end, all) = (BlitRegs { height: n, ..half }).blitted(drawn);
    let (once, whole) = (BlitRegs { height: (m + n) as u16, ..r }).blitted(ram);
    assert(end.pt =~= once.pt);
    assert(half.dat =~= r.dat.update(2, s.cur.c_dat));
    assert(end.dat =~= once.dat);
}

proof fn lemma_c_words(r: BlitRegs, s: AreaState, n: nat)
    requires
        !r.uses(BLTCON0_USEC),
    ensures
        area::after_words(r, s, n).cur.c_dat == s.cur.c_dat,
    decreases n,
{
    if n > 0 {
        lemma_c_words(r, s, (n - 1) as nat);
    }
}

proof fn lemma_c_rows(r: BlitRegs, s: AreaState, n: nat)
    requires
        !r.uses(BLTCON0_USEC),
    ensures
        area::after_rows(r, s, n).cur.c_dat == s.cur.c_dat,
    decreases n,
{
    if n > 0 {
        lemma_c_rows(r, s, (n - 1) as nat);
        lemma_c_words(r, area::row_start(r, area::after_rows(r, s, (n - 1) as nat)), r.width as nat);
    }
}

/// An area blit with channel C disabled (bit 9) leaves every data register
/// as it was written.
pub proof fn data_registers_keep_what_was_written(r: BlitRegs, ram: Seq<u8>)
    requires
        r.dat.len() == 4,
        r.con1 & 0x0001 == 0,
        r.con0 & 0x0200 == 0,
    ensures
        r.blitted(ram).0.dat == r.dat,
        r.blitted(ram).0.con0 == r.con0,
        r.blitted(ram).0.con1 == r.con1,
{
    let t = BlitRegs { pending: false, zero: true, ..r };
    lemma_c_rows(t, area::area_start(t, ram), r.height as nat);
    assert(r.blitted(ram).0.dat =~= r.dat);
}

proof fn lemma_pattern_underway(r: BlitRegs, ram: Seq<u8>, n: nat)
    ensures
        ({
            let s = line::after_pixels(r, line::line_start(r, ram), n);
            &&& s.cur.bsh == (r.con1 / 4096 - n) % 16
            &&& !r.uses(BLTCON0_USEB) ==> s.cur.bpt == r.pt[1]
            &&& r.uses(BLTCON0_USEB) ==> (s.cur.bpt - (r.pt[1] + n * r.modulo[1]))
                % 0x1_0000_0000 == 0
            &&& !r.uses(BLTCON0_USEC) ==> s.cur.c_dat == r.dat[2]
        }),
    decreases n,
{
    if n > 0 {
        let m = (n - 1) as nat;
        lemma_pattern_underway(r, ram, m);
        let s = line::after_pixels(r, line::line_start(r, ram), m);
        let step = r.modulo[1] as int;
        assert(n * step == m * step + step) by (nonlinear_arith)
            requires
                n == m + 1,
        ;
        let next = s.cur.bpt.wrapping_add_signed(r.modulo[1] as i32);
        assert((next - (s.cur.bpt + step)) % 0x1_0000_0000 == 0);
    } else {
        assert(0 * r.modulo[1] == 0);
    }
}

/// A line goes through its pattern one bit a pixel and writes the phase back
/// in the top four bits of `BLTCON1`. A pattern in memory is followed by its
/// modulo, once a pixel; with channel B disabled its pointer stays. Channel
/// enables and minterm stay, and with C disabled so does its data.
pub proof fn a_line_goes_through_its_pattern(r: BlitRegs, ram: Seq<u8>)
    requires
        r.dat.len() == 4,
        r.pt.len() == 4,
        r.con1 & 0x0001 != 0,
    ensures
        ({
            let after = r.blitted(ram).0;
            &&& after.con1 / 4096 == (r.con1 / 4096 - r.height) % 16
            &&& after.con0 % 4096 == r.con0 % 4096
            &&& r.con0 & 0x0400 == 0 ==> after.pt[1] == r.pt[1]
            &&& r.con0 & 0x0400 != 0 ==> (after.pt[1] - (r.pt[1] + r.height * r.modulo[1]))
                % 0x1_0000_0000 == 0
            &&& r.con0 & 0x0200 == 0 ==> after.dat == r.dat
        }),
{
    let t = BlitRegs { pending: false, zero: true, ..r };
    lemma_pattern_underway(t, ram, r.height as nat);
    lemma_underway(t, ram, r.height as nat);
    let after = r.blitted(ram).0;
    if r.con0 & 0x0200 == 0 {
        assert(after.dat =~= r.dat);
    }
}

} // verus!
