//! What holds of every blit.

use crate::be;
use crate::blitter::area;
use crate::blitter::area::AreaState;
use crate::blitter::line;
use crate::blitter::line::{LineCursor, LineState};
use crate::blitter::word;
use crate::blitter::{
    BlitRegs, BLTCON0_USEA, BLTCON0_USEC, BLTCON0_USED, BLTCON1_AUL, BLTCON1_DESC, BLTCON1_LINE,
    BLTCON1_SUD, BLTCON1_SUL, CHAN_A, CHAN_B, CHAN_C,
};
use vstd::prelude::*;

verus! {

/// A row of an area blit produces one D word per width unit, never changes
/// the size of chip RAM, and leaves chip RAM alone when D is disabled.
proof fn lemma_words(r: BlitRegs, s: AreaState, n: nat)
    requires
        s.ram.len() == crate::CHIP_RAM_SIZE,
    ensures
        area::after_words(r, s, n).out.len() == s.out.len() + n,
        area::after_words(r, s, n).ram.len() == s.ram.len(),
        !r.uses(BLTCON0_USED) ==> area::after_words(r, s, n).ram == s.ram,
    decreases n,
{
    if n > 0 {
        lemma_words(r, s, (n - 1) as nat);
        word::word_addr_lands_in_chip_ram(area::after_words(r, s, (n - 1) as nat).cur.dpt);
    }
}

proof fn lemma_rows(r: BlitRegs, s: AreaState, n: nat)
    requires
        s.ram.len() == crate::CHIP_RAM_SIZE,
    ensures
        area::after_rows(r, s, n).out.len() == s.out.len() + n * r.width,
        area::after_rows(r, s, n).ram.len() == s.ram.len(),
        !r.uses(BLTCON0_USED) ==> area::after_rows(r, s, n).ram == s.ram,
    decreases n,
{
    if n > 0 {
        let m = (n - 1) as nat;
        lemma_rows(r, s, m);
        let t = area::row_start(r, area::after_rows(r, s, m));
        lemma_words(r, t, r.width as nat);
        assert(n * r.width == m * r.width + r.width) by (nonlinear_arith)
            requires
                n == m + 1,
        ;
    } else {
        assert(0 * r.width == 0);
    }
}

/// An area blit produces exactly height times width D words, and a line
/// exactly as many as its height.
pub proof fn blit_produces_one_word_per_unit(r: BlitRegs, ram: Seq<u8>)
    requires
        ram.len() == crate::CHIP_RAM_SIZE,
    ensures
        area::after_rows(r, area::area_start(r, ram), r.height as nat).out.len() == r.height
            * r.width,
        line::after_pixels(r, line::line_start(r, ram), r.height as nat).out.len() == r.height,
{
    lemma_rows(r, area::area_start(r, ram), r.height as nat);
    lemma_pixels(r, line::line_start(r, ram), r.height as nat);
}

/// Whatever the registers hold, a blit keeps the size of chip RAM, clears
/// the pending flag, leaves masks, modulos, size and the A and B data
/// registers as they were, and with its store channel disabled (D in area
/// mode, C in line mode) writes nothing.
pub proof fn blit_keeps_what_it_does_not_own(r: BlitRegs, ram: Seq<u8>)
    requires
        ram.len() == crate::CHIP_RAM_SIZE,
    ensures
        r.blitted(ram).1.len() == ram.len(),
        !r.blitted(ram).0.pending,
        r.blitted(ram).0.afwm == r.afwm,
        r.blitted(ram).0.alwm == r.alwm,
        r.blitted(ram).0.modulo == r.modulo,
        r.blitted(ram).0.width == r.width,
        r.blitted(ram).0.height == r.height,
        r.dat.len() == 4 ==> r.blitted(ram).0.dat[CHAN_A as int] == r.dat[CHAN_A as int],
        r.dat.len() == 4 ==> r.blitted(ram).0.dat[CHAN_B as int] == r.dat[CHAN_B as int],
        !r.mode(BLTCON1_LINE) && !r.uses(BLTCON0_USED) ==> r.blitted(ram).1 == ram,
        r.mode(BLTCON1_LINE) && !r.uses(BLTCON0_USEC) ==> r.blitted(ram).1 == ram,
{
    let started = BlitRegs { pending: false, zero: true, ..r };
    lemma_rows(started, area::area_start(started, ram), started.height as nat);
    lemma_pixels(started, line::line_start(started, ram), started.height as nat);
}

/// `BZERO` is set after a blit exactly when every D word it produced was
/// zero.
pub proof fn bzero_means_every_word_was_zero(r: BlitRegs, ram: Seq<u8>)
    ensures
        ({
            let started = BlitRegs { pending: false, zero: true, ..r };
            r.blitted(ram).0.zero == area::all_zero(
                if r.mode(BLTCON1_LINE) {
                    line::after_pixels(
                        started,
                        line::line_start(started, ram),
                        r.height as nat,
                    ).out
                } else {
                    area::after_rows(started, area::area_start(started, ram), r.height as nat).out
                },
            )
        }),
{
}

proof fn lemma_pixels(r: BlitRegs, s: LineState, n: nat)
    requires
        s.ram.len() == crate::CHIP_RAM_SIZE,
    ensures
        line::after_pixels(r, s, n).out.len() == s.out.len() + n,
        line::after_pixels(r, s, n).ram.len() == s.ram.len(),
        !r.uses(BLTCON0_USEC) ==> line::after_pixels(r, s, n).ram == s.ram,
    decreases n,
{
    if n > 0 {
        lemma_pixels(r, s, (n - 1) as nat);
        word::word_addr_lands_in_chip_ram(line::after_pixels(r, s, (n - 1) as nat).cur.dpt);
    }
}

/// A blit that copies A to D: minterm `$F0`, no shift, full masks,
/// ascending, both channels enabled.
pub open spec fn copies_a_to_d(r: BlitRegs) -> bool {
    &&& r.uses(BLTCON0_USEA)
    &&& r.uses(BLTCON0_USED)
    &&& r.lf() == 0xF0
    &&& r.ash() == 0
    &&& r.afwm == 0xFFFF
    &&& r.alwm == 0xFFFF
    &&& !r.mode(BLTCON1_DESC)
}

/// A word-aligned run of `words` words inside chip RAM.
pub open spec fn run_in_ram(ram: Seq<u8>, at: u32, words: int) -> bool {
    at % 2 == 0 && at + 2 * words <= ram.len() && ram.len() == crate::CHIP_RAM_SIZE
}

proof fn lemma_copy_operand(a: u16, b: u16, c: u16)
    by (bit_vector)
    ensures
        word::minterm_word(0xF0, a, b, c) == a,
        a & 0xFFFF == a,
{
}

/// Copying a row of words to a disjoint run: after `n` words the first `n`
/// destination words equal their sources, nothing else has changed, and the
/// two pointers have moved on by `n` words.
pub proof fn straight_copy_copies(r: BlitRegs, s: AreaState, n: nat, w: int, byte: int)
    requires
        copies_a_to_d(r),
        run_in_ram(s.ram, s.cur.apt, n as int),
        run_in_ram(s.ram, s.cur.dpt, n as int),
        s.cur.apt + 2 * n <= s.cur.dpt || s.cur.dpt + 2 * n <= s.cur.apt,
    ensures
        area::after_words(r, s, n).cur.apt == s.cur.apt + 2 * n,
        area::after_words(r, s, n).cur.dpt == s.cur.dpt + 2 * n,
        area::after_words(r, s, n).ram.len() == s.ram.len(),
        0 <= w < n ==> word::word_at(
            area::after_words(r, s, n).ram,
            (s.cur.dpt + 2 * w) as u32,
        ) == word::word_at(s.ram, (s.cur.apt + 2 * w) as u32),
        0 <= byte < s.ram.len() && !(s.cur.dpt <= byte < s.cur.dpt + 2 * n) ==> area::after_words(
            r,
            s,
            n,
        ).ram[byte] == s.ram[byte],
    decreases n,
{
    if n > 0 {
        let m = (n - 1) as nat;
        let before = area::after_words(r, s, m);
        let src = (s.cur.apt + 2 * m) as u32;
        let dst = (s.cur.dpt + 2 * m) as u32;
        straight_copy_copies(r, s, m, w, byte);
        straight_copy_copies(r, s, m, w, src as int);
        straight_copy_copies(r, s, m, w, src + 1);
        word::word_addr_lands_in_chip_ram(src);
        word::word_addr_lands_in_chip_ram(dst);
        word::word_addr_lands_in_chip_ram((s.cur.dpt + 2 * w) as u32);
        let a = word::word_at(before.ram, src);
        assert(a == word::word_at(s.ram, src));
        lemma_copy_operand(a, area::b_operand(r, before), area::c_operand(r, before));
        assert(area::a_operand(r, before, m as int) == a);
        assert(area::d_word(r, before, m as int).0 == a);
        be::split_join_inverse(0, 0, a, 0, 0, 0);
    }
}

/// The bit position in chip RAM that a line's cursor draws at, counting
/// from the most significant bit of the word at address zero.
pub open spec fn position(cur: LineCursor) -> int {
    8 * cur.cpt + cur.ash
}

/// How far one step of the minor axis moves the position.
pub open spec fn minor_move(r: BlitRegs) -> int {
    let back = r.mode(BLTCON1_SUL);
    let size = if r.mode(BLTCON1_SUD) {
        8 * r.modulo[CHAN_C as int]
    } else {
        1
    };
    if back {
        -size
    } else {
        size
    }
}

/// How far one step of the major axis moves the position.
pub open spec fn major_move(r: BlitRegs) -> int {
    let back = r.mode(BLTCON1_AUL);
    let size = if r.mode(BLTCON1_SUD) {
        1
    } else {
        8 * r.modulo[CHAN_C as int]
    };
    if back {
        -size
    } else {
        size
    }
}

/// How many of the first `n` pixels found the error non-negative, and so
/// stepped the minor axis too.
pub open spec fn minor_steps(r: BlitRegs, s: LineState, n: nat) -> nat
    decreases n,
{
    if n == 0 {
        0
    } else {
        let m = (n - 1) as nat;
        minor_steps(r, s, m) + if line::after_pixels(r, s, m).cur.sign {
            0nat
        } else {
            1nat
        }
    }
}

/// Two bit positions that the 2^32-byte pointer range does not tell apart.
#[verifier::opaque]
pub open spec fn same_place(a: int, b: int) -> bool {
    (a - b) % 0x8_0000_0000 == 0
}

proof fn lemma_moves_add(a: int, b: int, c: int, d: int)
    requires
        same_place(a, b + d),
        same_place(b, c),
    ensures
        same_place(a, c + d),
{
    reveal(same_place);
}

proof fn lemma_step_x_position(cur: LineCursor, left: bool)
    requires
        cur.ash < 16,
    ensures
        line::step_x(cur, left).ash < 16,
        same_place(
            position(line::step_x(cur, left)),
            position(cur) + if left {
                -1int
            } else {
                1int
            },
        ),
{
    reveal(same_place);
}

proof fn lemma_step_y_position(r: BlitRegs, cur: LineCursor, up: bool)
    ensures
        line::step_y(r, cur, up).ash == cur.ash,
        same_place(
            position(line::step_y(r, cur, up)),
            position(cur) + if up {
                -8 * r.modulo[CHAN_C as int]
            } else {
                8 * r.modulo[CHAN_C as int]
            },
        ),
{
    reveal(same_place);
}

proof fn lemma_sometimes_position(r: BlitRegs, cur: LineCursor)
    requires
        cur.ash < 16,
    ensures
        line::step_sometimes(r, cur).ash < 16,
        same_place(position(line::step_sometimes(r, cur)), position(cur) + minor_move(r)),
{
    lemma_step_x_position(cur, r.mode(BLTCON1_SUL));
    lemma_step_y_position(r, cur, r.mode(BLTCON1_SUL));
}

proof fn lemma_always_position(r: BlitRegs, cur: LineCursor)
    requires
        cur.ash < 16,
    ensures
        line::step_always(r, cur).ash < 16,
        same_place(position(line::step_always(r, cur)), position(cur) + major_move(r)),
{
    lemma_step_x_position(cur, r.mode(BLTCON1_AUL));
    lemma_step_y_position(r, cur, r.mode(BLTCON1_AUL));
}

/// How far a pixel moves the position: along the major axis, and along the
/// minor axis when the error is non-negative.
pub open spec fn pixel_move(r: BlitRegs, cur: LineCursor) -> int {
    major_move(r) + if cur.sign {
        0
    } else {
        minor_move(r)
    }
}

proof fn lemma_walk_position(r: BlitRegs, cur: LineCursor)
    requires
        cur.ash < 16,
    ensures
        line::walked(r, cur).ash < 16,
        same_place(position(line::walked(r, cur)), position(cur) + pixel_move(r, cur)),
{
    let dotted = LineCursor { one_dot: true, ..cur };
    if cur.sign {
        lemma_always_position(r, dotted);
    } else {
        let stepped = line::step_sometimes(r, dotted);
        lemma_sometimes_position(r, dotted);
        lemma_always_position(r, stepped);
        let a = position(line::walked(r, cur));
        let b = position(stepped);
        lemma_moves_add(a, b, position(cur) + minor_move(r), major_move(r));
    }
}

/// Line mode walks a Bresenham line: every pixel moves one step along the
/// major axis, and one step along the minor axis exactly when the error was
/// non-negative. Positions count modulo the 2^32-byte pointer range.
pub proof fn line_walks_its_two_axes(r: BlitRegs, s: LineState, n: nat)
    requires
        s.cur.ash < 16,
    ensures
        line::after_pixels(r, s, n).cur.ash < 16,
        same_place(
            position(line::after_pixels(r, s, n).cur),
            position(s.cur) + n * major_move(r) + minor_steps(r, s, n) * minor_move(r),
        ),
    decreases n,
{
    let major = major_move(r);
    let minor = minor_move(r);
    if n > 0 {
        let m = (n - 1) as nat;
        line_walks_its_two_axes(r, s, m);
        let t = line::after_pixels(r, s, m).cur;
        lemma_walk_position(r, t);
        let k = minor_steps(r, s, m) as int;
        assert(n * major == m * major + major) by (nonlinear_arith)
            requires
                n == m + 1,
        ;
        assert((k + 1) * minor == k * minor + minor) by (nonlinear_arith);
        let before = position(s.cur) + m * major + k * minor;
        let here = position(line::after_pixels(r, s, n).cur);
        assert(here == position(line::walked(r, t)));
        lemma_moves_add(here, position(t), before, pixel_move(r, t));
    } else {
        assert(0 * major == 0);
        assert(0 * minor == 0);
        reveal(same_place);
    }
}

/// The error after `n` pixels is the starting error plus `BLTAMOD` for
/// every minor step and `BLTBMOD` for every pixel without one, modulo 2^16;
/// from the first pixel on its sign decides the next step.
pub proof fn line_error_accumulates(r: BlitRegs, s: LineState, n: nat)
    requires
        r.uses(BLTCON0_USEA),
    ensures
        (line::after_pixels(r, s, n).cur.acc - (s.cur.acc + minor_steps(r, s, n)
            * r.modulo[CHAN_A as int] + (n - minor_steps(r, s, n)) * r.modulo[CHAN_B as int]))
            % 0x1_0000 == 0,
        n > 0 ==> line::after_pixels(r, s, n).cur.sign == line::negative(
            line::after_pixels(r, s, n).cur.acc,
        ),
    decreases n,
{
    if n > 0 {
        let m = (n - 1) as nat;
        line_error_accumulates(r, s, m);
        let k = minor_steps(r, s, m);
        let amod = r.modulo[CHAN_A as int] as int;
        let bmod = r.modulo[CHAN_B as int] as int;
        assert((k + 1) * amod == k * amod + amod) by (nonlinear_arith);
        assert((m + 1 - k) * bmod == (m - k) * bmod + bmod) by (nonlinear_arith);
        assert((m + 1 - (k + 1)) * bmod == (m - k) * bmod);
    } else {
        assert(0 * r.modulo[CHAN_A as int] == 0);
        assert(0 * r.modulo[CHAN_B as int] == 0);
    }
}

/// The Bresenham decision value after `n` pixels of a line of `dx` by `dy`,
/// of which `steps` stepped the minor axis.
pub open spec fn decision(dx: int, dy: int, n: int, steps: int) -> int {
    2 * dy * (n + 1) - dx - 2 * dx * steps
}

/// Whether the registers are set up for a line that spans `dx` pixels of
/// its major axis and `dy` of its minor one, with its error counted in
/// multiples of `unit`: the accumulator at `unit * (2dy - dx)`, `BLTAMOD` at
/// `2 * unit * (dy - dx)` and `BLTBMOD` at `2 * unit * dy`.
pub open spec fn set_up_for(r: BlitRegs, s: LineState, dx: int, dy: int, unit: int) -> bool {
    &&& r.uses(BLTCON0_USEA)
    &&& 0 <= dy <= dx
    &&& 0 < dx
    &&& 0 < unit
    &&& 2 * (unit * dx) <= 0x8000
    &&& r.modulo[CHAN_A as int] == 2 * (unit * (dy - dx))
    &&& r.modulo[CHAN_B as int] == 2 * (unit * dy)
    &&& (s.cur.acc - unit * (2 * dy - dx)) % 0x1_0000 == 0
    &&& s.cur.sign == (2 * dy < dx)
}

/// The decision value in units of the accumulator.
proof fn lemma_scaled_decision(unit: int, dx: int, dy: int, n: int, k: int)
    ensures
        unit * (2 * dy * (n + 1) - dx - 2 * dx * k) == unit * (2 * dy - dx) + k * (2 * (unit * (dy
            - dx))) + (n - k) * (2 * (unit * dy)),
{
    let (p, q) = (unit * dx, unit * dy);
    let (a, b) = (2 * dy * (n + 1), 2 * dx * k);
    assert(unit * (a - dx - b) == unit * a - p - unit * b) by (nonlinear_arith)
        requires
            p == unit * dx,
    ;
    assert(unit * a == 2 * (q * (n + 1))) by (nonlinear_arith)
        requires
            a == 2 * dy * (n + 1),
            q == unit * dy,
    ;
    assert(unit * b == 2 * (p * k)) by (nonlinear_arith)
        requires
            b == 2 * dx * k,
            p == unit * dx,
    ;
    assert(unit * (2 * dy - dx) == 2 * q - p) by (nonlinear_arith)
        requires
            p == unit * dx,
            q == unit * dy,
    ;
    assert(unit * (dy - dx) == q - p) by (nonlinear_arith)
        requires
            p == unit * dx,
            q == unit * dy,
    ;
    assert(k * (2 * (q - p)) == 2 * (k * q) - 2 * (k * p)) by (nonlinear_arith);
    assert((n - k) * (2 * q) == 2 * (n * q) - 2 * (k * q)) by (nonlinear_arith);
    assert(q * (n + 1) == n * q + q) by (nonlinear_arith);
    assert(p * k == k * p) by (nonlinear_arith);
}

/// The accumulator of a line that was set up for `dx` by `dy` is the
/// decision value, which stays within one minor step of zero.
proof fn lemma_decision(r: BlitRegs, s: LineState, dx: int, dy: int, unit: int, n: nat)
    requires
        set_up_for(r, s, dx, dy, unit),
    ensures
        ({
            let d = decision(dx, dy, n as int, minor_steps(r, s, n) as int);
            &&& 2 * dy - 2 * dx <= d < 2 * dy
            &&& line::after_pixels(r, s, n).cur.sign == (d < 0)
        }),
    decreases n,
{
    let k = minor_steps(r, s, n) as int;
    let d = decision(dx, dy, n as int, k);
    if n > 0 {
        let m = (n - 1) as nat;
        lemma_decision(r, s, dx, dy, unit, m);
        let j = minor_steps(r, s, m) as int;
        assert(2 * dy * (n + 1) == 2 * dy * (m + 1) + 2 * dy) by (nonlinear_arith)
            requires
                n == m + 1,
        ;
        assert(2 * dx * (j + 1) == 2 * dx * j + 2 * dx) by (nonlinear_arith);
        line_error_accumulates(r, s, n);
        let amod = r.modulo[CHAN_A as int] as int;
        let bmod = r.modulo[CHAN_B as int] as int;
        lemma_scaled_decision(unit, dx, dy, n as int, k);
        assert(unit * d == unit * (2 * dy - dx) + k * amod + (n - k) * bmod);
        assert(-0x8000 <= unit * d < 0x8000) by (nonlinear_arith)
            requires
                0 < unit,
                0 <= dy <= dx,
                2 * (unit * dx) <= 0x8000,
                2 * dy - 2 * dx <= d < 2 * dy,
        ;
        assert((unit * d < 0) == (d < 0)) by (nonlinear_arith)
            requires
                0 < unit,
        ;
    } else {
        assert(2 * dy * 1 == 2 * dy);
        assert(2 * dx * 0 == 0);
    }
}

/// Line mode draws the line its registers were set up for: after `n` pixels
/// along the major axis the minor axis has moved to the pixel nearest to the
/// ideal line, `n * dy / dx` rounded with ties upward. In particular `dx`
/// pixels on it has moved exactly `dy`.
pub proof fn line_follows_the_ideal(
    r: BlitRegs,
    s: LineState,
    dx: int,
    dy: int,
    unit: int,
    n: nat,
)
    requires
        set_up_for(r, s, dx, dy, unit),
    ensures
        minor_steps(r, s, n) == (2 * (n * dy) + dx) / (2 * dx),
        n == dx ==> minor_steps(r, s, n) == dy,
{
    lemma_decision(r, s, dx, dy, unit, n);
    let k = minor_steps(r, s, n) as int;
    let from = 2 * (n * dy) + dx;
    assert(2 * dy * (n + 1) == 2 * (n * dy) + 2 * dy) by (nonlinear_arith);
    assert(2 * dx * k == k * (2 * dx)) by (nonlinear_arith);
    vstd::arithmetic::div_mod::lemma_fundamental_div_mod_converse(
        from,
        2 * dx,
        k,
        from - k * (2 * dx),
    );
    if n == dx {
        assert(k == dy) by (nonlinear_arith)
            requires
                n == dx,
                0 < dx,
                0 <= 2 * (n * dy) + dx - k * (2 * dx) < 2 * dx,
        ;
    }
}

} // verus!
