//! What a line blit draws, pixel by pixel.

use crate::blitter::area_laws;
use crate::blitter::laws;
use crate::blitter::line;
use crate::blitter::line::{LineCursor, LineState};
use crate::blitter::word;
use crate::blitter::BlitRegs;
use crate::CHIP_RAM_SIZE;
use vstd::prelude::*;

verus! {

/// The pixel at bit position `q` of RAM, counting from the most significant
/// bit of its first byte.
pub open spec fn pixel(ram: Seq<u8>, q: int) -> bool {
    word::bit(ram[q / 8] as u16, (7 - q % 8) as u16)
}

/// How far the minor axis has moved after `k` steps of the major axis of a
/// line of `dx` by `dy`: `k * dy / dx`, rounded, ties upward.
pub open spec fn rise(dx: int, dy: int, k: int) -> int {
    (2 * (k * dy) + dx) / (2 * dx)
}

/// How far a step forward or back of size `size` moves.
pub open spec fn signed(back: bool, size: int) -> int {
    if back {
        -size
    } else {
        size
    }
}

/// How far a step of the major axis moves: a pixel along a row when
/// `BLTCON1` bit 4 is set, else a row; bit 2 turns it round.
pub open spec fn major(r: BlitRegs) -> int {
    signed(
        r.con1 & 0x0004 != 0,
        if r.con1 & 0x0010 != 0 {
            1
        } else {
            8 * r.modulo[2]
        },
    )
}

/// How far a step of the minor axis moves: a row when bit 4 is set, else a
/// pixel along one; bit 3 turns it round.
pub open spec fn minor(r: BlitRegs) -> int {
    signed(
        r.con1 & 0x0008 != 0,
        if r.con1 & 0x0010 != 0 {
            8 * r.modulo[2]
        } else {
            1
        },
    )
}

/// Where pixel `k` of the line stands.
pub open spec fn spot(r: BlitRegs, dx: int, dy: int, k: int) -> int {
    8 * r.pt[2] + r.con0 / 4096 + k * major(r) + rise(dx, dy, k) * minor(r)
}

/// The bit of the line pattern for pixel `k`: it starts at the bit that
/// `BLTCON1`'s top four bits number and goes down, round and round.
pub open spec fn dash(r: BlitRegs, k: int) -> bool {
    word::bit(r.dat[1], ((r.con1 / 4096 - k) % 16) as u16)
}

/// Whether pixel `k` is stored: always, but for single-dot mode (bit 1),
/// which stores the first pixel of each row only.
pub open spec fn dotted(r: BlitRegs, dx: int, dy: int, k: int) -> bool {
    r.con1 & 0x0002 == 0 || r.con1 & 0x0010 == 0 || k == 0 || rise(dx, dy, k) != rise(
        dx,
        dy,
        k - 1,
    )
}

/// Registers set up for a line of `dx` by `dy` pixels (major by minor) from
/// `BLTCPT`, its error counted in multiples of `unit`: a single-bit texture,
/// the pattern in `BLTBDAT`, and a minterm that keeps C where A is clear.
pub open spec fn line_programmed(r: BlitRegs, dx: int, dy: int, unit: int) -> bool {
    &&& r.con1 & 0x0001 != 0
    &&& r.con0 & 0x0800 != 0
    &&& r.con0 & 0x0400 == 0
    &&& r.con0 & 0x0200 != 0
    &&& r.con0 % 16 == 0x0A
    &&& r.dat[0] & r.afwm == 0x8000
    &&& r.pt[2] == r.pt[3]
    &&& r.pt[2] % 2 == 0
    &&& r.modulo[2] as int % 2 == 0
    &&& 0 <= dy <= dx
    &&& 0 < dx
    &&& 0 < unit
    &&& 2 * (unit * dx) <= 0x8000
    &&& r.modulo[0] == 2 * (unit * (dy - dx))
    &&& r.modulo[1] == 2 * (unit * dy)
    &&& (r.pt[0] - unit * (2 * dy - dx)) % 0x1_0000 == 0
    &&& (r.con1 & 0x0040 != 0) == (2 * dy < dx)
    &&& forall|k: int|
        0 <= k < r.height ==> 0 <= #[trigger] spot(r, dx, dy, k) < 8 * CHIP_RAM_SIZE
    &&& forall|j: int, k: int|
        0 <= j < k < r.height ==> #[trigger] spot(r, dx, dy, j) != #[trigger] spot(r, dx, dy, k)
}

/// A word of RAM as sixteen pixels.
proof fn lemma_word_pixels(ram: Seq<u8>, at: int, i: int)
    requires
        0 <= i < 16,
    ensures
        pixel(ram, 8 * at + 15 - i) == area_laws::ram_bit(ram, at, i),
{
    let q = 8 * at + 15 - i;
    if i < 8 {
        assert(q / 8 == at + 1 && q % 8 == 7 - i);
    } else {
        assert(q / 8 == at && q % 8 == 15 - i);
    }
}

proof fn lemma_texture(t: u16, ash: u16, b: u16, i: u16)
    by (bit_vector)
    requires
        ash < 16,
        i < 16,
    ensures
        t == 0x8000 ==> word::bit(t >> ash, i) == (i == 15 - ash),
        word::bit(0xFFFF, i),
        !word::bit(0, i),
        (b & 1 != 0) == word::bit(b, 0),
        word::bit(word::rotated_left_once(b), i) == word::bit(b, if i == 0 {
            15
        } else {
            (i - 1) as u16
        }),
{
}

/// The line after `n` pixels.
spec fn reached(
    r: BlitRegs,
    ram: Seq<u8>,
    s: LineState,
    dx: int,
    dy: int,
    n: int,
) -> bool {
    &&& s.cur.ash < 16
    &&& s.cur.cpt % 2 == 0
    &&& s.cur.cpt == s.cur.dpt
    &&& laws::same_place(laws::position(s.cur), spot(r, dx, dy, n))
    &&& forall|i: int|
        0 <= i < 16 ==> #[trigger] word::bit(s.cur.bdat, i as u16) == word::bit(
            r.dat[1],
            ((i + r.con1 / 4096 - n) % 16) as u16,
        )
    &&& s.cur.one_dot == !(n == 0 || r.con1 & 0x0010 == 0 || rise(dx, dy, n) != rise(
        dx,
        dy,
        n - 1,
    ))
    &&& drawn(r, ram, s.ram, dx, dy, n)
}

/// What RAM holds after `n` pixels.
spec fn drawn(r: BlitRegs, ram: Seq<u8>, now: Seq<u8>, dx: int, dy: int, n: int) -> bool {
    &&& now.len() == CHIP_RAM_SIZE
    &&& forall|k: int|
        0 <= k < n && dotted(r, dx, dy, k) ==> pixel(now, #[trigger] spot(r, dx, dy, k))
            == area_laws::truth(
            r.con0 as int % 256,
            true,
            dash(r, k),
            pixel(ram, spot(r, dx, dy, k)),
        )
    &&& forall|q: int|
        0 <= q < 8 * CHIP_RAM_SIZE && !visited(r, dx, dy, n, q) ==> #[trigger] pixel(now, q)
            == pixel(ram, q)
}

/// Whether one of the first `n` pixels is stored at `q`.
pub open spec fn visited(r: BlitRegs, dx: int, dy: int, n: int, q: int) -> bool {
    exists|k: int| 0 <= k < n && dotted(r, dx, dy, k) && #[trigger] spot(r, dx, dy, k) == q
}

/// A position inside RAM is the pointer's own.
proof fn lemma_here(cur: LineCursor, q: int)
    requires
        laws::same_place(laws::position(cur), q),
        cur.ash < 16,
        cur.cpt % 2 == 0,
        0 <= q < 8 * CHIP_RAM_SIZE,
    ensures
        laws::position(cur) == q,
{
    reveal(laws::same_place);
}

/// The D word of a pixel: the pixel itself by the minterm's A half, the rest
/// of its word unchanged.
proof fn lemma_pixel_word(r: BlitRegs, s: LineState, i: int)
    requires
        r.con0 & 0x0400 == 0,
        r.con0 & 0x0200 != 0,
        r.con0 % 16 == 0x0A,
        r.dat[0] & r.afwm == 0x8000,
        s.cur.ash < 16,
        s.cur.cpt % 2 == 0,
        s.cur.cpt < CHIP_RAM_SIZE,
        0 <= i < 16,
    ensures
        word::bit(line::pixel_word(r, s), i as u16) == (if i == 15 - s.cur.ash {
            area_laws::truth(
                r.con0 as int % 256,
                true,
                word::bit(s.cur.bdat, 0),
                area_laws::ram_bit(s.ram, s.cur.cpt as int, i),
            )
        } else {
            area_laws::ram_bit(s.ram, s.cur.cpt as int, i)
        }),
{
    let a = (r.dat[0] & r.afwm) >> s.cur.ash;
    let b: u16 = if line::pattern(r, s) & 1 != 0 {
        0xFFFF
    } else {
        0
    };
    let c = line::background(r, s);
    lemma_texture(r.dat[0] & r.afwm, s.cur.ash, s.cur.bdat, i as u16);
    area_laws::lemma_truth(r.lf(), a, b, c, i as u16);
    area_laws::lemma_fetch(s.ram, s.cur.cpt, s.cur.cpt as int, i);
}

/// Drawing one pixel into RAM.
proof fn lemma_draw(
    r: BlitRegs,
    ram: Seq<u8>,
    s: LineState,
    dx: int,
    dy: int,
    unit: int,
    n: int,
)
    requires
        line_programmed(r, dx, dy, unit),
        reached(r, ram, s, dx, dy, n),
        0 <= n < r.height,
    ensures
        drawn(r, ram, line::after_pixel(r, s).ram, dx, dy, n + 1),
{
    let here = spot(r, dx, dy, n);
    let now = s.ram;
    let after = line::after_pixel(r, s).ram;
    let at = s.cur.cpt as int;
    lemma_here(s.cur, here);
    assert(here == 8 * at + s.cur.ash);
    assert(at < CHIP_RAM_SIZE);
    assert(line::stores(r, s) == dotted(r, dx, dy, n));
    let d = line::pixel_word(r, s);
    let lf = r.con0 as int % 256;
    assert(word::bit(s.cur.bdat, 0int as u16) == dash(r, n));
    area_laws::lemma_fetch(now, s.cur.dpt, at, 0);
    assert forall|q: int| 0 <= q < 8 * CHIP_RAM_SIZE implies #[trigger] pixel(after, q) == (
    if q == here && dotted(r, dx, dy, n) {
        area_laws::truth(lf, true, dash(r, n), pixel(now, q))
    } else {
        pixel(now, q)
    }) by {
        if dotted(r, dx, dy, n) {
            if 8 * at <= q < 8 * at + 16 {
                let i = 8 * at + 15 - q;
                lemma_word_pixels(now, at, i);
                lemma_word_pixels(after, at, i);
                lemma_pixel_word(r, s, i);
                area_laws::lemma_store(now, s.cur.dpt, at, d, i);
            } else {
                assert(q / 8 != at && q / 8 != at + 1);
            }
        }
    }
    assert forall|k: int| 0 <= k < n + 1 && dotted(r, dx, dy, k) implies pixel(
        after,
        #[trigger] spot(r, dx, dy, k),
    ) == area_laws::truth(lf, true, dash(r, k), pixel(ram, spot(r, dx, dy, k))) by {
        let q = spot(r, dx, dy, k);
        if k < n {
            assert(q != here);
        } else {
            assert(!visited(r, dx, dy, n, here)) by {
                if visited(r, dx, dy, n, here) {
                    let j = choose|j: int|
                        0 <= j < n && dotted(r, dx, dy, j) && #[trigger] spot(r, dx, dy, j) == here;
                    assert(spot(r, dx, dy, j) != spot(r, dx, dy, n));
                }
            }
            assert(pixel(now, here) == pixel(ram, here));
        }
        assert(pixel(after, q) == pixel(after, q));
    }
    assert forall|q: int|
        0 <= q < 8 * CHIP_RAM_SIZE && !visited(r, dx, dy, n + 1, q) implies #[trigger] pixel(
        after,
        q,
    ) == pixel(ram, q) by {
        if visited(r, dx, dy, n, q) {
            let j = choose|j: int|
                0 <= j < n && dotted(r, dx, dy, j) && #[trigger] spot(r, dx, dy, j) == q;
            assert(0 <= j < n + 1);
        }
        assert(pixel(now, q) == pixel(ram, q));
        if q == here {
            assert(spot(r, dx, dy, n) == q);
        }
    }
}

/// The sequencer stays on whole words.
proof fn lemma_even(r: BlitRegs, cur: LineCursor)
    requires
        cur.cpt % 2 == 0,
        r.modulo[2] as int % 2 == 0,
    ensures
        line::walked(r, cur).cpt % 2 == 0,
        line::walked(r, cur).one_dot == (r.con1 & 0x0010 != 0 && cur.sign),
{
    let c = LineCursor { one_dot: true, ..cur };
    let half = if cur.sign {
        c
    } else {
        line::step_sometimes(r, c)
    };
    assert(half.cpt % 2 == 0);
}

/// Where the sequencer stands after `n` pixels.
proof fn lemma_where(r: BlitRegs, ram: Seq<u8>, dx: int, dy: int, unit: int, n: nat)
    requires
        line_programmed(r, dx, dy, unit),
    ensures
        ({
            let s = line::after_pixels(r, line::line_start(r, ram), n);
            &&& s.cur.ash < 16
            &&& laws::same_place(laws::position(s.cur), spot(r, dx, dy, n as int))
            &&& laws::minor_steps(r, line::line_start(r, ram), n) == rise(dx, dy, n as int)
        }),
{
    let s0 = line::line_start(r, ram);
    assert(laws::set_up_for(r, s0, dx, dy, unit)) by {
        assert(s0.cur.acc == r.pt[0] % 65536);
    }
    laws::line_walks_its_two_axes(r, s0, n);
    laws::line_follows_the_ideal(r, s0, dx, dy, unit, n);
    assert(laws::major_move(r) == major(r) && laws::minor_move(r) == minor(r));
    assert(laws::position(s0.cur) == 8 * r.pt[2] + r.con0 / 4096);
}

/// The pattern goes round by one bit per pixel.
proof fn lemma_pattern(r: BlitRegs, ram: Seq<u8>, n: nat, i: int)
    requires
        r.con0 & 0x0400 == 0,
        0 <= i < 16,
    ensures
        word::bit(
            line::after_pixels(r, line::line_start(r, ram), n).cur.bdat,
            i as u16,
        ) == word::bit(r.dat[1], ((i + r.con1 / 4096 - n) % 16) as u16),
    decreases n,
{
    if n == 0 {
        word::rotation_permutes_bits(r.dat[1], r.bsh(), i as u16);
    } else {
        let m = (n - 1) as nat;
        let before = line::after_pixels(r, line::line_start(r, ram), m);
        let j: int = if i == 0 {
            15
        } else {
            i - 1
        };
        lemma_pattern(r, ram, m, j);
        lemma_texture(0, 0, before.cur.bdat, i as u16);
        assert((j + r.con1 / 4096 - m) % 16 == (i + r.con1 / 4096 - n) % 16);
    }
}

/// The sequencer's flags after one more pixel.
proof fn lemma_step(r: BlitRegs, ram: Seq<u8>, dx: int, dy: int, unit: int, m: nat)
    requires
        line_programmed(r, dx, dy, unit),
        line::after_pixels(r, line::line_start(r, ram), m).cur.cpt % 2 == 0,
    ensures
        ({
            let s = line::after_pixels(r, line::line_start(r, ram), m + 1);
            &&& s.cur.cpt % 2 == 0
            &&& s.cur.cpt == s.cur.dpt
            &&& s.cur.one_dot == (r.con1 & 0x0010 != 0 && rise(dx, dy, (m + 1) as int) == rise(
                dx,
                dy,
                m as int,
            ))
        }),
{
    let s0 = line::line_start(r, ram);
    let before = line::after_pixels(r, s0, m);
    lemma_where(r, ram, dx, dy, unit, m);
    lemma_where(r, ram, dx, dy, unit, m + 1);
    lemma_even(r, before.cur);
    assert(line::after_pixels(r, s0, m + 1) == line::after_pixel(r, before));
}

/// The first `n` pixels of a line.
proof fn lemma_pixels(r: BlitRegs, ram: Seq<u8>, dx: int, dy: int, unit: int, n: nat)
    requires
        line_programmed(r, dx, dy, unit),
        ram.len() == CHIP_RAM_SIZE,
        n <= r.height,
    ensures
        reached(
            r,
            ram,
            line::after_pixels(r, line::line_start(r, ram), n),
            dx,
            dy,
            n as int,
        ),
    decreases n,
{
    let s0 = line::line_start(r, ram);
    let s = line::after_pixels(r, s0, n);
    lemma_where(r, ram, dx, dy, unit, n);
    assert forall|i: int| 0 <= i < 16 implies #[trigger] word::bit(s.cur.bdat, i as u16)
        == word::bit(r.dat[1], ((i + r.con1 / 4096 - n) % 16) as u16) by {
        lemma_pattern(r, ram, n, i);
    }
    if n == 0 {
        assert(drawn(r, ram, s.ram, dx, dy, 0));
    } else {
        let m = (n - 1) as nat;
        lemma_pixels(r, ram, dx, dy, unit, m);
        lemma_draw(r, ram, line::after_pixels(r, s0, m), dx, dy, unit, m as int);
        lemma_step(r, ram, dx, dy, unit, m);
        assert(s == line::after_pixel(r, line::after_pixels(r, s0, m)));
    }
}

proof fn lemma_same_line(r: BlitRegs, t: BlitRegs, dx: int, dy: int, unit: int)
    requires
        line_programmed(r, dx, dy, unit),
        t == (BlitRegs { pending: t.pending, zero: t.zero, ..r }),
    ensures
        line_programmed(t, dx, dy, unit),
        forall|k: int| #[trigger] spot(t, dx, dy, k) == spot(r, dx, dy, k),
{
    assert forall|k: int| #[trigger] spot(t, dx, dy, k) == spot(r, dx, dy, k) by {}
    assert forall|k: int| 0 <= k < t.height implies 0 <= #[trigger] spot(t, dx, dy, k) < 8
        * CHIP_RAM_SIZE by {
        assert(0 <= spot(r, dx, dy, k));
    }
    assert forall|j: int, k: int| 0 <= j < k < t.height implies #[trigger] spot(t, dx, dy, j)
        != #[trigger] spot(t, dx, dy, k) by {
        assert(spot(r, dx, dy, j) != spot(r, dx, dy, k));
    }
}

/// Line mode draws the pixels of the ideal line and no others: pixel `k`
/// stands `k` steps along the major axis and the rounded `k * dy / dx` along
/// the minor one, and becomes what the minterm's A half makes of its pattern
/// bit and of what was there. With minterm `$CA` that is the pattern bit
/// itself, so a solid pattern sets every pixel of the line; with `$4A` a
/// solid pattern inverts them.
pub proof fn line_draws_its_pattern(
    r: BlitRegs,
    ram: Seq<u8>,
    dx: int,
    dy: int,
    unit: int,
    k: int,
    q: int,
)
    requires
        line_programmed(r, dx, dy, unit),
        ram.len() == CHIP_RAM_SIZE,
    ensures
        ({
            let after = r.blitted(ram).1;
            let here = spot(r, dx, dy, k);
            let lf = r.con0 as int % 256;
            &&& 0 <= k < r.height && dotted(r, dx, dy, k) ==> {
                &&& lf == 0xCA ==> pixel(after, here) == dash(r, k)
                &&& lf == 0xCA && r.dat[1] == 0xFFFF ==> pixel(after, here)
                &&& lf == 0x4A && dash(r, k) ==> pixel(after, here) == !pixel(ram, here)
                &&& pixel(after, here) == area_laws::truth(
                    lf,
                    true,
                    dash(r, k),
                    pixel(ram, here),
                )
            }
            &&& 0 <= q < 8 * CHIP_RAM_SIZE && !visited(r, dx, dy, r.height as int, q) ==> pixel(
                after,
                q,
            ) == pixel(ram, q)
        }),
{
    let t = BlitRegs { pending: false, zero: true, ..r };
    lemma_same_line(r, t, dx, dy, unit);
    lemma_pixels(t, ram, dx, dy, unit, r.height as nat);
    let s = line::after_pixels(t, line::line_start(t, ram), r.height as nat);
    assert(r.blitted(ram).1 == s.ram);
    lemma_texture(0, 0, 0, ((r.con1 / 4096 - k) % 16) as u16);
    if 0 <= k < r.height && dotted(r, dx, dy, k) {
        assert(dotted(t, dx, dy, k));
        assert(spot(t, dx, dy, k) == spot(r, dx, dy, k));
        assert(dash(t, k) == dash(r, k));
        let (lf, here) = (r.con0 as int % 256, spot(r, dx, dy, k));
        assert(pixel(s.ram, here) == area_laws::truth(lf, true, dash(r, k), pixel(ram, here)));
        assert(lf == 0xCA ==> pixel(s.ram, here) == dash(r, k));
        assert(lf == 0x4A && dash(r, k) ==> pixel(s.ram, here) == !pixel(ram, here));
        assert(r.dat[1] == 0xFFFF ==> dash(r, k));
    }
    if 0 <= q < 8 * CHIP_RAM_SIZE && !visited(r, dx, dy, r.height as int, q) {
        if visited(t, dx, dy, r.height as int, q) {
            let j = choose|j: int|
                0 <= j < r.height && dotted(t, dx, dy, j) && #[trigger] spot(t, dx, dy, j) == q;
            assert(dotted(r, dx, dy, j) && spot(r, dx, dy, j) == q);
        }
        assert(pixel(s.ram, q) == pixel(ram, q));
    }
}

/// One pixel of any line, wherever its sequencer stands: bit `i` of the word
/// at D is looked up in the minterm by the texture bit the shift brings
/// there, by the pattern bit, and by the bit of C's word. With B enabled the
/// pattern word is fetched through B's pointer, else it is the one that goes
/// round. Nothing is stored with C disabled, nor on a row that single-dot
/// mode has already marked.
pub proof fn a_line_pixel_is_looked_up(r: BlitRegs, s: LineState, i: int)
    requires
        s.ram.len() == CHIP_RAM_SIZE,
        s.cur.ash < 16,
        s.cur.bsh < 16,
        s.cur.bpt % 2 == 0,
        s.cur.cpt % 2 == 0,
        s.cur.dpt % 2 == 0,
        s.cur.bpt < CHIP_RAM_SIZE,
        s.cur.cpt < CHIP_RAM_SIZE,
        s.cur.dpt < CHIP_RAM_SIZE,
        0 <= i < 16,
    ensures
        ({
            let after = line::after_pixel(r, s);
            let texture = i + s.cur.ash < 16 && word::bit(r.dat[0], (i + s.cur.ash) as u16)
                && word::bit(r.afwm, (i + s.cur.ash) as u16);
            let dash = if r.con0 & 0x0400 != 0 {
                area_laws::ram_bit(s.ram, s.cur.bpt as int, s.cur.bsh as int)
            } else {
                word::bit(s.cur.bdat, 0)
            };
            let below = area_laws::ram_bit(s.ram, s.cur.cpt as int, i);
            if r.con0 & 0x0200 != 0 && (r.con1 & 0x0002 == 0 || !s.cur.one_dot) {
                area_laws::ram_bit(after.ram, s.cur.dpt as int, i) == area_laws::truth(
                    r.con0 as int % 256,
                    texture,
                    dash,
                    below,
                )
            } else {
                after.ram == s.ram
            }
        }),
{
    let masked = r.dat[0] & r.afwm;
    let a = masked >> s.cur.ash;
    let b: u16 = if line::pattern(r, s) & 1 != 0 {
        0xFFFF
    } else {
        0
    };
    lemma_shifted_texture(masked, s.cur.ash, i as u16);
    if i + s.cur.ash < 16 {
        area_laws::lemma_masked_bit(r.dat[0], r.afwm, 0, (i + s.cur.ash) as u16);
    }
    lemma_texture(0, 0, line::pattern(r, s), i as u16);
    word::rotation_permutes_bits(word::word_at(s.ram, s.cur.bpt), s.cur.bsh, 0);
    area_laws::lemma_fetch(s.ram, s.cur.bpt, s.cur.bpt as int, s.cur.bsh as int);
    area_laws::lemma_fetch(s.ram, s.cur.cpt, s.cur.cpt as int, i);
    area_laws::lemma_truth(r.lf(), a, b, line::background(r, s), i as u16);
    area_laws::lemma_store(s.ram, s.cur.dpt, s.cur.dpt as int, line::pixel_word(r, s), i);
}

proof fn lemma_shifted_texture(t: u16, ash: u16, i: u16)
    by (bit_vector)
    requires
        ash < 16,
        i < 16,
    ensures
        word::bit(t >> ash, i) == (i + ash < 16 && (t >> ((i + ash) as u16)) & 1 == 1),
{
}

/// A line leaves its pointers and its shift at the pixel after its last, as
/// bit positions that the pointer range tells apart.
pub proof fn a_line_tells_where_it_stopped(
    r: BlitRegs,
    ram: Seq<u8>,
    dx: int,
    dy: int,
    unit: int,
)
    requires
        line_programmed(r, dx, dy, unit),
        ram.len() == CHIP_RAM_SIZE,
    ensures
        ({
            let after = r.blitted(ram).0;
            &&& (8 * after.pt[2] + after.con0 / 4096 - spot(r, dx, dy, r.height as int))
                % 0x8_0000_0000 == 0
            &&& after.pt[3] == after.pt[2]
        }),
{
    let t = BlitRegs { pending: false, zero: true, ..r };
    lemma_same_line(r, t, dx, dy, unit);
    lemma_pixels(t, ram, dx, dy, unit, r.height as nat);
    assert(spot(t, dx, dy, r.height as int) == spot(r, dx, dy, r.height as int));
    reveal(laws::same_place);
}

} // verus!
