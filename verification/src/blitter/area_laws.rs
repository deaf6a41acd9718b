//! What an area blit does to chip RAM, bit by bit, from the programmed
//! registers and the RAM it started from.

use crate::blitter::area;
use crate::blitter::area::AreaState;
use crate::blitter::word;
use crate::blitter::BlitRegs;
use crate::CHIP_RAM_SIZE;
use vstd::prelude::*;

verus! {

/// Bit `i` (0 is the least significant) of the big-endian word of RAM at
/// byte address `at`.
pub open spec fn ram_bit(ram: Seq<u8>, at: int, i: int) -> bool {
    if i < 8 {
        word::bit(ram[at + 1] as u16, i as u16)
    } else {
        word::bit(ram[at] as u16, (i - 8) as u16)
    }
}

/// Whether `BLTCON0` enables channel A (0), B (1), C (2) or D (3).
pub open spec fn enabled(r: BlitRegs, channel: int) -> bool {
    if channel == 0 {
        r.con0 & 0x0800 != 0
    } else if channel == 1 {
        r.con0 & 0x0400 != 0
    } else if channel == 2 {
        r.con0 & 0x0200 != 0
    } else {
        r.con0 & 0x0100 != 0
    }
}

/// Whether the blit runs from high addresses to low.
pub open spec fn descending(r: BlitRegs) -> bool {
    r.con1 & 0x0002 != 0
}

/// Whether the outline between edges is filled.
pub open spec fn filling(r: BlitRegs) -> bool {
    descending(r) && (r.con1 & 0x0008 != 0 || r.con1 & 0x0010 != 0)
}

/// Bytes from the start of one row to the start of the next.
pub open spec fn row_bytes(r: BlitRegs, channel: int) -> int {
    2 * r.width + (r.modulo[channel] & !1i16)
}

/// The address a channel uses for word `x` of row `y`.
pub open spec fn chan_addr(r: BlitRegs, channel: int, y: int, x: int) -> int {
    if descending(r) {
        r.pt[channel] - y * row_bytes(r, channel) - 2 * x
    } else {
        r.pt[channel] + y * row_bytes(r, channel) + 2 * x
    }
}

/// Bit `i` of channel A's word, masked at both ends of its row.
pub open spec fn a_source(r: BlitRegs, ram: Seq<u8>, y: int, x: int, i: int) -> bool {
    &&& if enabled(r, 0) {
        ram_bit(ram, chan_addr(r, 0, y, x), i)
    } else {
        word::bit(r.dat[0], i as u16)
    }
    &&& x == 0 ==> word::bit(r.afwm, i as u16)
    &&& x == r.width - 1 ==> word::bit(r.alwm, i as u16)
}

/// Bit `i` of channel B's word.
pub open spec fn b_source(r: BlitRegs, ram: Seq<u8>, y: int, x: int, i: int) -> bool {
    ram_bit(ram, chan_addr(r, 1, y, x), i)
}

/// Bit `i` of the A word before this one in the order of the blit, clear
/// before the first.
pub open spec fn a_before(r: BlitRegs, ram: Seq<u8>, y: int, x: int, i: int) -> bool {
    if x > 0 {
        a_source(r, ram, y, x - 1, i)
    } else {
        y > 0 && a_source(r, ram, y - 1, r.width - 1, i)
    }
}

/// Bit `i` of the B word before this one in the order of the blit.
pub open spec fn b_before(r: BlitRegs, ram: Seq<u8>, y: int, x: int, i: int) -> bool {
    if x > 0 {
        b_source(r, ram, y, x - 1, i)
    } else {
        y > 0 && b_source(r, ram, y - 1, r.width - 1, i)
    }
}

/// Bit `i` of the A operand: the A bits moved right by `BLTCON0`'s top four
/// bits ascending, left descending, those of the word before moving in.
pub open spec fn a_bit(r: BlitRegs, ram: Seq<u8>, y: int, x: int, i: int) -> bool {
    let n = r.con0 / 4096;
    if !descending(r) && i + n < 16 {
        a_source(r, ram, y, x, i + n)
    } else if !descending(r) {
        a_before(r, ram, y, x, i + n - 16)
    } else if i >= n {
        a_source(r, ram, y, x, i - n)
    } else {
        a_before(r, ram, y, x, i + 16 - n)
    }
}

/// Bit `i` of the B operand, moved likewise by `BLTCON1`'s top four bits, or
/// that of `BLTBDAT` as it is when B is disabled.
pub open spec fn b_bit(r: BlitRegs, ram: Seq<u8>, y: int, x: int, i: int) -> bool {
    let n = r.con1 / 4096;
    if !enabled(r, 1) {
        word::bit(r.dat[1], i as u16)
    } else if !descending(r) && i + n < 16 {
        b_source(r, ram, y, x, i + n)
    } else if !descending(r) {
        b_before(r, ram, y, x, i + n - 16)
    } else if i >= n {
        b_source(r, ram, y, x, i - n)
    } else {
        b_before(r, ram, y, x, i + 16 - n)
    }
}

/// Bit `i` of the C operand, or that of `BLTCDAT` when C is disabled.
pub open spec fn c_bit(r: BlitRegs, ram: Seq<u8>, y: int, x: int, i: int) -> bool {
    if enabled(r, 2) {
        ram_bit(ram, chan_addr(r, 2, y, x), i)
    } else {
        word::bit(r.dat[2], i as u16)
    }
}

/// The bit of a minterm select byte whose number three operand bits spell.
pub open spec fn truth(lf: int, a: bool, b: bool, c: bool) -> bool {
    let half = if a {
        lf / 16
    } else {
        lf % 16
    };
    let quarter = if b {
        half / 4
    } else {
        half % 4
    };
    (if c {
        quarter / 2
    } else {
        quarter % 2
    }) == 1
}

/// Bit `i` of a D word before any filling.
pub open spec fn plain_bit(r: BlitRegs, ram: Seq<u8>, y: int, x: int, i: int) -> bool {
    truth(
        r.con0 as int % 256,
        a_bit(r, ram, y, x, i),
        b_bit(r, ram, y, x, i),
        c_bit(r, ram, y, x, i),
    )
}

/// Whether an odd number of the first `p` bits of row `y` are set, in the
/// order the fill passes over them.
pub open spec fn odd_edges(r: BlitRegs, ram: Seq<u8>, y: int, p: nat) -> bool
    decreases p,
{
    if p == 0 {
        false
    } else {
        let q = p - 1;
        odd_edges(r, ram, y, q as nat) != plain_bit(r, ram, y, q / 16, q % 16)
    }
}

/// Bit `i` of the D word for word `x` of row `y`: between edges an
/// inclusive fill sets it, an exclusive one inverts it.
pub open spec fn out_bit(r: BlitRegs, ram: Seq<u8>, y: int, x: int, i: int) -> bool {
    let plain = plain_bit(r, ram, y, x, i);
    let inside = (r.con1 & 0x0004 != 0) != odd_edges(r, ram, y, (16 * x + i) as nat);
    if filling(r) && inside && r.con1 & 0x0008 != 0 {
        true
    } else if filling(r) && inside {
        !plain
    } else {
        plain
    }
}

/// Whether word (`y1`, `x1`) comes before word (`y2`, `x2`).
pub open spec fn earlier(y1: int, x1: int, y2: int, x2: int) -> bool {
    y1 < y2 || y1 == y2 && x1 < x2
}

/// Whether (`y`, `x`) is a word of the blit.
pub open spec fn in_blit(r: BlitRegs, y: int, x: int) -> bool {
    0 <= y < r.height && 0 <= x < r.width
}

/// A blit whose enabled channels stay inside chip RAM and that never reads
/// or writes a word it has already written. A source may share the word
/// being written.
pub open spec fn clear_of_itself(r: BlitRegs) -> bool {
    &&& forall|channel: int, y: int, x: int|
        0 <= channel < 4 && enabled(r, channel) && in_blit(r, y, x) ==> 0 <= #[trigger] chan_addr(
            r,
            channel,
            y,
            x,
        ) < CHIP_RAM_SIZE && chan_addr(r, channel, y, x) % 2 == 0
    &&& enabled(r, 3) ==> forall|channel: int, y: int, x: int, y1: int, x1: int|
        0 <= channel < 4 && enabled(r, channel) && in_blit(r, y, x) && in_blit(r, y1, x1)
            && earlier(y1, x1, y, x) ==> #[trigger] chan_addr(r, channel, y, x)
            != #[trigger] chan_addr(r, 3, y1, x1)
}

/// Whether some word before (`y`, `x`) is stored over byte `at`.
pub open spec fn stored_over(r: BlitRegs, y: int, x: int, at: int) -> bool {
    enabled(r, 3) && exists|y1: int, x1: int|
        in_blit(r, y1, x1) && earlier(y1, x1, y, x) && chan_addr(r, 3, y1, x1) <= at
            <= #[trigger] chan_addr(r, 3, y1, x1) + 1
}

/// Two addresses that a 32-bit pointer does not tell apart.
pub open spec fn same_pointer(a: int, b: int) -> bool {
    (a - b) % 0x1_0000_0000 == 0
}

/// Where the blit stands before word `x` of row `y`.
spec fn reached(r: BlitRegs, ram: Seq<u8>, s: AreaState, y: int, x: int) -> bool {
    &&& stored(r, ram, s.ram, y, x)
    &&& pointers(r, s, y, x)
    &&& forall|i: int| 0 <= i < 16 ==> #[trigger] word::bit(s.cur.a_prev, i as u16) == a_before(
        r,
        ram,
        y,
        x,
        i,
    )
    &&& enabled(r, 1) ==> forall|i: int|
        0 <= i < 16 ==> #[trigger] word::bit(s.cur.b_prev, i as u16) == b_before(r, ram, y, x, i)
    &&& !enabled(r, 2) ==> s.cur.c_dat == r.dat[2]
}

spec fn pointers(r: BlitRegs, s: AreaState, y: int, x: int) -> bool {
    &&& same_pointer(s.cur.apt as int, if enabled(r, 0) { chan_addr(r, 0, y, x) } else { r.pt[0] as int })
    &&& same_pointer(s.cur.bpt as int, if enabled(r, 1) { chan_addr(r, 1, y, x) } else { r.pt[1] as int })
    &&& same_pointer(s.cur.cpt as int, if enabled(r, 2) { chan_addr(r, 2, y, x) } else { r.pt[2] as int })
    &&& same_pointer(s.cur.dpt as int, if enabled(r, 3) { chan_addr(r, 3, y, x) } else { r.pt[3] as int })
}

/// The fill carry before word `x` of row `y`.
spec fn carries(r: BlitRegs, ram: Seq<u8>, s: AreaState, y: int, x: int) -> bool {
    filling(r) ==> s.cur.carry == ((r.con1 & 0x0004 != 0) != odd_edges(
        r,
        ram,
        y,
        (16 * x) as nat,
    ))
}

/// The bits of a word are those of its two bytes.
proof fn lemma_word_bits(hi: u8, lo: u8, value: u16, i: u16)
    by (bit_vector)
    requires
        i < 16,
    ensures
        word::bit((hi * 256 + lo) as u16, i) == (if i < 8 {
            word::bit(lo as u16, i)
        } else {
            word::bit(hi as u16, (i - 8) as u16)
        }),
        word::bit(value, i) == (if i < 8 {
            word::bit(((value % 256) as u8) as u16, i)
        } else {
            word::bit(((value / 256) as u8) as u16, (i - 8) as u16)
        }),
{
}

/// A pointer that reaches into chip RAM reads the word there.
pub(crate) proof fn lemma_fetch(ram: Seq<u8>, ptr: u32, at: int, i: int)
    requires
        same_pointer(ptr as int, at),
        0 <= at < CHIP_RAM_SIZE,
        at % 2 == 0,
        0 <= i < 16,
    ensures
        word::word_addr(ptr) == at,
        word::bit(word::word_at(ram, ptr), i as u16) == ram_bit(ram, at, i),
{
    assert(ptr == at);
    word::word_addr_lands_in_chip_ram(ptr);
    lemma_word_bits(ram[at], ram[at + 1], 0, i as u16);
}

/// A stored word reads back bit by bit, and no other byte changes.
pub(crate) proof fn lemma_store(ram: Seq<u8>, ptr: u32, at: int, value: u16, i: int)
    requires
        same_pointer(ptr as int, at),
        0 <= at < CHIP_RAM_SIZE,
        at % 2 == 0,
        0 <= i < 16,
        ram.len() == CHIP_RAM_SIZE,
    ensures
        ram_bit(word::with_word_at(ram, ptr, value), at, i) == word::bit(value, i as u16),
{
    assert(ptr == at);
    word::word_addr_lands_in_chip_ram(ptr);
    lemma_word_bits(0, 0, value, i as u16);
}

/// The minterm looks its operands up in the select byte.
pub(crate) proof fn lemma_truth(lf: u8, a: u16, b: u16, c: u16, i: u16)
    requires
        i < 16,
    ensures
        word::bit(word::minterm_word(lf, a, b, c), i) == truth(
            lf as int,
            word::bit(a, i),
            word::bit(b, i),
            word::bit(c, i),
        ),
{
    word::minterm_is_the_truth_table(lf, a, b, c, i);
    assert(((a >> i) & 1 == 0 || (a >> i) & 1 == 1) && ((b >> i) & 1 == 0 || (b >> i) & 1 == 1)
        && ((c >> i) & 1 == 0 || (c >> i) & 1 == 1)) by (bit_vector);
    assert((lf >> 7) & 1 == lf / 128 % 2 && (lf >> 6) & 1 == lf / 64 % 2 && (lf >> 5) & 1 == lf / 32
        % 2 && (lf >> 4) & 1 == lf / 16 % 2 && (lf >> 3) & 1 == lf / 8 % 2 && (lf >> 2) & 1 == lf
        / 4 % 2 && (lf >> 1) & 1 == lf / 2 % 2 && (lf >> 0) & 1 == lf % 2) by (bit_vector);
}

/// How a channel's address moves from word to word and from row to row.
proof fn lemma_addr_moves(r: BlitRegs, channel: int, y: int, x: int)
    ensures
        chan_addr(r, channel, y, x + 1) == chan_addr(r, channel, y, x) + (if descending(r) {
            -2int
        } else {
            2
        }),
        chan_addr(r, channel, y + 1, 0) == chan_addr(r, channel, y, r.width as int) + (
        if descending(r) {
            -(r.modulo[channel] & !1i16)
        } else {
            (r.modulo[channel] & !1i16) as int
        }),
{
    let rb = row_bytes(r, channel);
    assert((y + 1) * rb == y * rb + rb) by (nonlinear_arith);
}

/// A word a channel is about to use has not been stored over.
proof fn lemma_untouched(r: BlitRegs, channel: int, y: int, x: int)
    requires
        clear_of_itself(r),
        in_blit(r, y, x),
        0 <= channel < 4,
        enabled(r, channel),
    ensures
        !stored_over(r, y, x, chan_addr(r, channel, y, x)),
        !stored_over(r, y, x, chan_addr(r, channel, y, x) + 1),
{
    let at = chan_addr(r, channel, y, x);
    if stored_over(r, y, x, at) || stored_over(r, y, x, at + 1) {
        let (y1, x1) = choose|y1: int, x1: int|
            in_blit(r, y1, x1) && earlier(y1, x1, y, x) && (chan_addr(r, 3, y1, x1) <= at
                <= #[trigger] chan_addr(r, 3, y1, x1) + 1 || chan_addr(r, 3, y1, x1) <= at + 1
                <= chan_addr(r, 3, y1, x1) + 1);
        assert(chan_addr(r, 3, y1, x1) % 2 == 0);
        assert(chan_addr(r, channel, y, x) != chan_addr(r, 3, y1, x1));
    }
}

/// A fetch through a channel sees the RAM the blit started from.
proof fn lemma_channel_fetch(
    r: BlitRegs,
    ram: Seq<u8>,
    s: AreaState,
    channel: int,
    ptr: u32,
    y: int,
    x: int,
    i: int,
)
    requires
        clear_of_itself(r),
        reached(r, ram, s, y, x),
        in_blit(r, y, x),
        0 <= channel < 4,
        enabled(r, channel),
        same_pointer(ptr as int, chan_addr(r, channel, y, x)),
        0 <= i < 16,
    ensures
        word::bit(word::word_at(s.ram, ptr), i as u16) == ram_bit(
            ram,
            chan_addr(r, channel, y, x),
            i,
        ),
{
    let at = chan_addr(r, channel, y, x);
    lemma_untouched(r, channel, y, x);
    lemma_fetch(s.ram, ptr, at, i);
    assert(s.ram[at] == ram[at]);
    assert(s.ram[at + 1] == ram[at + 1]);
}

pub(crate) proof fn lemma_masked_bit(value: u16, mask: u16, other: u16, i: u16)
    by (bit_vector)
    requires
        i < 16,
    ensures
        word::bit(value & mask, i) == (word::bit(value, i) && word::bit(mask, i)),
        word::bit((value & mask) & other, i) == (word::bit(value, i) && word::bit(mask, i)
            && word::bit(other, i)),
{
}

/// The masked A word holds the A bits.
proof fn lemma_a_word(r: BlitRegs, ram: Seq<u8>, s: AreaState, y: int, x: int, i: int)
    requires
        clear_of_itself(r),
        reached(r, ram, s, y, x),
        in_blit(r, y, x),
        0 <= i < 16,
    ensures
        word::bit(area::a_masked(r, s, x), i as u16) == a_source(r, ram, y, x, i),
{
    if enabled(r, 0) {
        lemma_channel_fetch(r, ram, s, 0, s.cur.apt, y, x, i);
    }
    let raw = area::a_raw(r, s);
    lemma_masked_bit(raw, r.afwm, r.alwm, i as u16);
    lemma_masked_bit(raw, r.alwm, r.afwm, i as u16);
}

/// The operands of the minterm hold the bits the shifts bring there.
proof fn lemma_operands(r: BlitRegs, ram: Seq<u8>, s: AreaState, y: int, x: int, i: int)
    requires
        clear_of_itself(r),
        reached(r, ram, s, y, x),
        in_blit(r, y, x),
        0 <= i < 16,
    ensures
        word::bit(area::a_operand(r, s, x), i as u16) == a_bit(r, ram, y, x, i),
        word::bit(area::b_operand(r, s), i as u16) == b_bit(r, ram, y, x, i),
        word::bit(area::c_operand(r, s), i as u16) == c_bit(r, ram, y, x, i),
{
    let n = r.con0 / 4096;
    let d = descending(r);
    let j = if !d && i + n < 16 {
        i + n
    } else if !d {
        i + n - 16
    } else if i >= n {
        i - n
    } else {
        i + 16 - n
    };
    word::barrel_shifter_moves_bits(
        s.cur.a_prev,
        area::a_masked(r, s, x),
        r.ash() as u32,
        i as u16,
    );
    lemma_a_word(r, ram, s, y, x, j);
    assert(word::bit(s.cur.a_prev, j as u16) == a_before(r, ram, y, x, j));
    if enabled(r, 1) {
        let m = r.con1 / 4096;
        let k = if !d && i + m < 16 {
            i + m
        } else if !d {
            i + m - 16
        } else if i >= m {
            i - m
        } else {
            i + 16 - m
        };
        word::barrel_shifter_moves_bits(
            s.cur.b_prev,
            word::word_at(s.ram, s.cur.bpt),
            r.bsh() as u32,
            i as u16,
        );
        lemma_channel_fetch(r, ram, s, 1, s.cur.bpt, y, x, k);
        assert(word::bit(s.cur.b_prev, k as u16) == b_before(r, ram, y, x, k));
    }
    if enabled(r, 2) {
        lemma_channel_fetch(r, ram, s, 2, s.cur.cpt, y, x, i);
    }
}

/// The minterm of the operands, bit by bit.
proof fn lemma_plain(r: BlitRegs, ram: Seq<u8>, s: AreaState, y: int, x: int, i: int)
    requires
        clear_of_itself(r),
        reached(r, ram, s, y, x),
        in_blit(r, y, x),
        0 <= i < 16,
    ensures
        word::bit(
            word::minterm_word(
                r.lf(),
                area::a_operand(r, s, x),
                area::b_operand(r, s),
                area::c_operand(r, s),
            ),
            i as u16,
        ) == plain_bit(r, ram, y, x, i),
{
    lemma_operands(r, ram, s, y, x, i);
    lemma_truth(
        r.lf(),
        area::a_operand(r, s, x),
        area::b_operand(r, s),
        area::c_operand(r, s),
        i as u16,
    );
}

/// The edges up to bit `n` of a word are those before the word and those in
/// it.
proof fn lemma_edges(r: BlitRegs, ram: Seq<u8>, y: int, x: int, d: u16, n: nat)
    requires
        0 <= x,
        n <= 16,
        forall|i: int|
            0 <= i < 16 ==> #[trigger] word::bit(d, i as u16) == plain_bit(r, ram, y, x, i),
    ensures
        odd_edges(r, ram, y, (16 * x + n) as nat) == (odd_edges(r, ram, y, (16 * x) as nat)
            != word::odd_below(d, n)),
    decreases n,
{
    if n > 0 {
        let m = (n - 1) as nat;
        lemma_edges(r, ram, y, x, d, m);
        assert((16 * x + m) / 16 == x && (16 * x + m) % 16 == m);
        assert(word::bit(d, m as u16) == plain_bit(r, ram, y, x, m as int));
    }
}

/// The D word, and the fill carry after it.
proof fn lemma_out(r: BlitRegs, ram: Seq<u8>, s: AreaState, y: int, x: int, i: int)
    requires
        clear_of_itself(r),
        reached(r, ram, s, y, x),
        carries(r, ram, s, y, x),
        in_blit(r, y, x),
        0 <= i < 16,
    ensures
        word::bit(area::d_word(r, s, x).0, i as u16) == out_bit(r, ram, y, x, i),
        filling(r) ==> area::d_word(r, s, x).1 == ((r.con1 & 0x0004 != 0) != odd_edges(
            r,
            ram,
            y,
            (16 * (x + 1)) as nat,
        )),
{
    let d = word::minterm_word(
        r.lf(),
        area::a_operand(r, s, x),
        area::b_operand(r, s),
        area::c_operand(r, s),
    );
    assert forall|j: int| 0 <= j < 16 implies #[trigger] word::bit(d, j as u16) == plain_bit(
        r,
        ram,
        y,
        x,
        j,
    ) by {
        lemma_plain(r, ram, s, y, x, j);
    }
    assert(word::bit(d, i as u16) == plain_bit(r, ram, y, x, i));
    if filling(r) {
        let ife = r.con1 & 0x0008 != 0;
        let efe = r.con1 & 0x0010 != 0;
        word::fill_is_parity_of_edges(d, s.cur.carry, ife, efe, 16, i as u16);
        lemma_edges(r, ram, y, x, d, i as nat);
        lemma_edges(r, ram, y, x, d, 16);
    }
}

/// A pointer that moves with its channel stays on the channel's address.
proof fn lemma_pointer_moves(enabled: bool, ptr: u32, step: i32, from: int, to: int)
    requires
        same_pointer(ptr as int, from),
        enabled ==> to == from + step,
        !enabled ==> to == from,
        -0x1_0000 <= step <= 0x1_0000,
    ensures
        same_pointer(area::moved(enabled, ptr, step) as int, to),
{
}

proof fn lemma_pointers_move(r: BlitRegs, s: AreaState, y: int, x: int)
    requires
        pointers(r, s, y, x),
    ensures
        pointers(r, area::after_word(r, s, x), y, x + 1),
        x == r.width ==> pointers(r, area::row_end(r, s), y + 1, 0),
{
    lemma_addr_moves(r, 0, y, x);
    lemma_addr_moves(r, 1, y, x);
    lemma_addr_moves(r, 2, y, x);
    lemma_addr_moves(r, 3, y, x);
    let step = area::word_step(r);
    let home = |channel: int, y: int, x: int|
        if enabled(r, channel) {
            chan_addr(r, channel, y, x)
        } else {
            r.pt[channel] as int
        };
    lemma_pointer_moves(enabled(r, 0), s.cur.apt, step, home(0, y, x), home(0, y, x + 1));
    lemma_pointer_moves(enabled(r, 1), s.cur.bpt, step, home(1, y, x), home(1, y, x + 1));
    lemma_pointer_moves(enabled(r, 2), s.cur.cpt, step, home(2, y, x), home(2, y, x + 1));
    lemma_pointer_moves(enabled(r, 3), s.cur.dpt, step, home(3, y, x), home(3, y, x + 1));
    if x == r.width {
        let z = y + 1;
        lemma_pointer_moves(
            enabled(r, 0),
            s.cur.apt,
            area::row_step(r, 0),
            home(0, y, x),
            home(0, z, 0),
        );
        lemma_pointer_moves(
            enabled(r, 1),
            s.cur.bpt,
            area::row_step(r, 1),
            home(1, y, x),
            home(1, z, 0),
        );
        lemma_pointer_moves(
            enabled(r, 2),
            s.cur.cpt,
            area::row_step(r, 2),
            home(2, y, x),
            home(2, z, 0),
        );
        lemma_pointer_moves(
            enabled(r, 3),
            s.cur.dpt,
            area::row_step(r, 3),
            home(3, y, x),
            home(3, z, 0),
        );
    }
}

/// What chip RAM holds before word `x` of row `y`.
spec fn stored(r: BlitRegs, ram: Seq<u8>, now: Seq<u8>, y: int, x: int) -> bool {
    &&& now.len() == CHIP_RAM_SIZE
    &&& forall|at: int|
        0 <= at < CHIP_RAM_SIZE && !stored_over(r, y, x, at) ==> #[trigger] now[at] == ram[at]
    &&& enabled(r, 3) ==> forall|y1: int, x1: int, i: int|
        in_blit(r, y1, x1) && earlier(y1, x1, y, x) && 0 <= i < 16 ==> #[trigger] ram_bit(
            now,
            chan_addr(r, 3, y1, x1),
            i,
        ) == out_bit(r, ram, y1, x1, i)
}

/// A byte that the next word is stored over, or that was stored over before,
/// is stored over after it.
proof fn lemma_stored_over_grows(r: BlitRegs, y: int, x: int, at: int)
    requires
        in_blit(r, y, x),
    ensures
        stored_over(r, y, x, at) ==> stored_over(r, y, x + 1, at),
        enabled(r, 3) && chan_addr(r, 3, y, x) <= at <= chan_addr(r, 3, y, x) + 1 ==> stored_over(
            r,
            y,
            x + 1,
            at,
        ),
{
    if stored_over(r, y, x, at) {
        let (y1, x1) = choose|y1: int, x1: int|
            in_blit(r, y1, x1) && earlier(y1, x1, y, x) && chan_addr(r, 3, y1, x1) <= at
                <= #[trigger] chan_addr(r, 3, y1, x1) + 1;
        assert(earlier(y1, x1, y, x + 1));
    }
    assert(earlier(y, x, y, x + 1));
}

/// Storing one word.
proof fn lemma_word_stored(
    r: BlitRegs,
    ram: Seq<u8>,
    now: Seq<u8>,
    ptr: u32,
    d: u16,
    y: int,
    x: int,
)
    requires
        clear_of_itself(r),
        stored(r, ram, now, y, x),
        in_blit(r, y, x),
        enabled(r, 3),
        same_pointer(ptr as int, chan_addr(r, 3, y, x)),
        forall|i: int|
            0 <= i < 16 ==> #[trigger] word::bit(d, i as u16) == out_bit(r, ram, y, x, i),
    ensures
        stored(r, ram, word::with_word_at(now, ptr, d), y, x + 1),
{
    let after = word::with_word_at(now, ptr, d);
    let at = chan_addr(r, 3, y, x);
    lemma_fetch(now, ptr, at, 0);
    assert forall|b: int|
        0 <= b < CHIP_RAM_SIZE && !stored_over(r, y, x + 1, b) implies #[trigger] after[b]
        == ram[b] by {
        lemma_stored_over_grows(r, y, x, b);
        assert(now[b] == ram[b]);
    }
    assert forall|y1: int, x1: int, i: int|
        in_blit(r, y1, x1) && earlier(y1, x1, y, x + 1) && 0 <= i < 16 implies #[trigger] ram_bit(
        after,
        chan_addr(r, 3, y1, x1),
        i,
    ) == out_bit(r, ram, y1, x1, i) by {
        if y1 == y && x1 == x {
            lemma_store(now, ptr, at, d, i);
            assert(word::bit(d, i as u16) == out_bit(r, ram, y, x, i));
        } else {
            let other = chan_addr(r, 3, y1, x1);
            assert(chan_addr(r, 3, y, x) != chan_addr(r, 3, y1, x1));
            assert(other % 2 == 0 && at % 2 == 0);
            assert(after[other] == now[other] && after[other + 1] == now[other + 1]);
            assert(ram_bit(now, other, i) == out_bit(r, ram, y1, x1, i));
        }
    }
}

/// One word of the blit.
proof fn lemma_word(r: BlitRegs, ram: Seq<u8>, s: AreaState, y: int, x: int)
    requires
        clear_of_itself(r),
        reached(r, ram, s, y, x),
        carries(r, ram, s, y, x),
        in_blit(r, y, x),
    ensures
        reached(r, ram, area::after_word(r, s, x), y, x + 1),
        carries(r, ram, area::after_word(r, s, x), y, x + 1),
        forall|i: int|
            0 <= i < 16 ==> #[trigger] word::bit(area::d_word(r, s, x).0, i as u16) == out_bit(
                r,
                ram,
                y,
                x,
                i,
            ),
{
    let t = area::after_word(r, s, x);
    let d = area::d_word(r, s, x).0;
    lemma_pointers_move(r, s, y, x);
    lemma_out(r, ram, s, y, x, 0);
    assert forall|i: int| 0 <= i < 16 implies #[trigger] word::bit(d, i as u16) == out_bit(
        r,
        ram,
        y,
        x,
        i,
    ) by {
        lemma_out(r, ram, s, y, x, i);
    }
    assert forall|i: int| 0 <= i < 16 implies #[trigger] word::bit(t.cur.a_prev, i as u16)
        == a_before(r, ram, y, x + 1, i) by {
        lemma_a_word(r, ram, s, y, x, i);
    }
    if enabled(r, 1) {
        assert forall|i: int| 0 <= i < 16 implies #[trigger] word::bit(t.cur.b_prev, i as u16)
            == b_before(r, ram, y, x + 1, i) by {
            lemma_channel_fetch(r, ram, s, 1, s.cur.bpt, y, x, i);
        }
    }
    if enabled(r, 3) {
        lemma_word_stored(r, ram, s.ram, s.cur.dpt, d, y, x);
    }
}

/// A row of the blit, up to word `n`.
proof fn lemma_row(r: BlitRegs, ram: Seq<u8>, s: AreaState, y: int, n: nat)
    requires
        clear_of_itself(r),
        reached(r, ram, s, y, 0),
        carries(r, ram, s, y, 0),
        0 <= y < r.height,
        n <= r.width,
    ensures
        reached(r, ram, area::after_words(r, s, n), y, n as int),
        carries(r, ram, area::after_words(r, s, n), y, n as int),
    decreases n,
{
    if n > 0 {
        let m = (n - 1) as nat;
        lemma_row(r, ram, s, y, m);
        lemma_word(r, ram, area::after_words(r, s, m), y, m as int);
    }
}

/// The end of a row is the start of the next.
proof fn lemma_row_end(r: BlitRegs, ram: Seq<u8>, s: AreaState, y: int)
    requires
        reached(r, ram, s, y, r.width as int),
        0 <= y < r.height,
        0 < r.width,
    ensures
        reached(r, ram, area::row_end(r, s), y + 1, 0),
{
    lemma_pointers_move(r, s, y, r.width as int);
    assert forall|at: int| stored_over(r, y + 1, 0, at) == stored_over(
        r,
        y,
        r.width as int,
        at,
    ) by {
        assert forall|y1: int, x1: int| in_blit(r, y1, x1) implies earlier(y1, x1, y + 1, 0)
            == earlier(y1, x1, y, r.width as int) by {}
        if stored_over(r, y + 1, 0, at) {
            let (y1, x1) = choose|y1: int, x1: int|
                in_blit(r, y1, x1) && earlier(y1, x1, y + 1, 0) && chan_addr(r, 3, y1, x1) <= at
                    <= #[trigger] chan_addr(r, 3, y1, x1) + 1;
            assert(earlier(y1, x1, y, r.width as int));
        }
        if stored_over(r, y, r.width as int, at) {
            let (y1, x1) = choose|y1: int, x1: int|
                in_blit(r, y1, x1) && earlier(y1, x1, y, r.width as int) && chan_addr(r, 3, y1, x1)
                    <= at <= #[trigger] chan_addr(r, 3, y1, x1) + 1;
            assert(earlier(y1, x1, y + 1, 0));
        }
    }
}

/// The first `n` rows of the blit.
proof fn lemma_rows(r: BlitRegs, ram: Seq<u8>, s: AreaState, n: nat)
    requires
        clear_of_itself(r),
        reached(r, ram, s, 0, 0),
        n <= r.height,
        0 < r.width,
    ensures
        reached(r, ram, area::after_rows(r, s, n), n as int, 0),
    decreases n,
{
    if n > 0 {
        let m = (n - 1) as nat;
        lemma_rows(r, ram, s, m);
        let before = area::after_rows(r, s, m);
        let t = area::row_start(r, before);
        lemma_row(r, ram, t, m as int, r.width as nat);
        lemma_row_end(r, ram, area::after_words(r, t, r.width as nat), m as int);
    }
}

/// The same programming, whatever the status flags are.
spec fn alike(r: BlitRegs, t: BlitRegs) -> bool {
    t == (BlitRegs { pending: t.pending, zero: t.zero, ..r })
}

proof fn lemma_alike_addr(r: BlitRegs, t: BlitRegs, channel: int, y: int, x: int)
    requires
        alike(r, t),
    ensures
        chan_addr(t, channel, y, x) == chan_addr(r, channel, y, x),
        enabled(t, channel) == enabled(r, channel),
        in_blit(t, y, x) == in_blit(r, y, x),
{
}

proof fn lemma_alike_plain(r: BlitRegs, t: BlitRegs, ram: Seq<u8>, y: int, x: int, i: int)
    requires
        alike(r, t),
    ensures
        plain_bit(t, ram, y, x, i) == plain_bit(r, ram, y, x, i),
{
}

proof fn lemma_alike_edges(r: BlitRegs, t: BlitRegs, ram: Seq<u8>, y: int, p: nat)
    requires
        alike(r, t),
    ensures
        odd_edges(t, ram, y, p) == odd_edges(r, ram, y, p),
    decreases p,
{
    if p > 0 {
        let q = p - 1;
        lemma_alike_edges(r, t, ram, y, q as nat);
        lemma_alike_plain(r, t, ram, y, q / 16, q % 16);
    }
}

proof fn lemma_alike_out(r: BlitRegs, t: BlitRegs, ram: Seq<u8>, y: int, x: int, i: int)
    requires
        alike(r, t),
    ensures
        out_bit(t, ram, y, x, i) == out_bit(r, ram, y, x, i),
{
    lemma_alike_plain(r, t, ram, y, x, i);
    lemma_alike_edges(r, t, ram, y, (16 * x + i) as nat);
}

proof fn lemma_alike_over(r: BlitRegs, t: BlitRegs, y: int, x: int, at: int)
    requires
        alike(r, t),
    ensures
        stored_over(t, y, x, at) == stored_over(r, y, x, at),
{
    if stored_over(t, y, x, at) {
        let (y1, x1) = choose|y1: int, x1: int|
            in_blit(t, y1, x1) && earlier(y1, x1, y, x) && chan_addr(t, 3, y1, x1) <= at
                <= #[trigger] chan_addr(t, 3, y1, x1) + 1;
        lemma_alike_addr(r, t, 3, y1, x1);
        assert(chan_addr(r, 3, y1, x1) <= at <= chan_addr(r, 3, y1, x1) + 1);
    }
    if stored_over(r, y, x, at) {
        let (y1, x1) = choose|y1: int, x1: int|
            in_blit(r, y1, x1) && earlier(y1, x1, y, x) && chan_addr(r, 3, y1, x1) <= at
                <= #[trigger] chan_addr(r, 3, y1, x1) + 1;
        lemma_alike_addr(r, t, 3, y1, x1);
        assert(chan_addr(t, 3, y1, x1) <= at <= chan_addr(t, 3, y1, x1) + 1);
    }
}

proof fn lemma_alike_clear(r: BlitRegs, t: BlitRegs)
    requires
        alike(r, t),
        clear_of_itself(r),
    ensures
        clear_of_itself(t),
{
    assert forall|channel: int, y: int, x: int|
        0 <= channel < 4 && enabled(t, channel) && in_blit(t, y, x) implies 0
        <= #[trigger] chan_addr(t, channel, y, x) < CHIP_RAM_SIZE && chan_addr(t, channel, y, x) % 2
        == 0 by {
        lemma_alike_addr(r, t, channel, y, x);
        assert(0 <= chan_addr(r, channel, y, x) < CHIP_RAM_SIZE);
    }
    if enabled(t, 3) {
        assert forall|channel: int, y: int, x: int, y1: int, x1: int|
            0 <= channel < 4 && enabled(t, channel) && in_blit(t, y, x) && in_blit(t, y1, x1)
                && earlier(y1, x1, y, x) implies #[trigger] chan_addr(t, channel, y, x)
            != #[trigger] chan_addr(t, 3, y1, x1) by {
            lemma_alike_addr(r, t, channel, y, x);
            lemma_alike_addr(r, t, 3, y1, x1);
            assert(chan_addr(r, channel, y, x) != chan_addr(r, 3, y1, x1));
        }
    }
}

proof fn lemma_no_bits(i: u16)
    by (bit_vector)
    requires
        i < 16,
    ensures
        !word::bit(0, i),
{
}

/// Before its first word a blit has stored nothing.
proof fn lemma_start(r: BlitRegs, ram: Seq<u8>)
    requires
        ram.len() == CHIP_RAM_SIZE,
    ensures
        reached(r, ram, area::area_start(r, ram), 0, 0),
{
    let s = area::area_start(r, ram);
    assert forall|j: int| 0 <= j < 16 implies !#[trigger] word::bit(s.cur.a_prev, j as u16) by {
        lemma_no_bits(j as u16);
    }
    assert forall|j: int| 0 <= j < 16 implies !#[trigger] word::bit(s.cur.b_prev, j as u16) by {
        lemma_no_bits(j as u16);
    }
    assert(pointers(r, s, 0, 0)) by {
        assert(0 * row_bytes(r, 0) == 0 && 0 * row_bytes(r, 1) == 0 && 0 * row_bytes(r, 2) == 0 && 0
            * row_bytes(r, 3) == 0);
    }
}

/// An area blit, for any enabled channels, minterm, shifts, masks, modulos,
/// direction and fill: every bit of every destination word is the bit that
/// the minterm gives for the A, B and C bits that stand there, filled
/// between edges if so programmed, all of them taken from the RAM the blit
/// started from; no other byte of RAM changes; and each enabled channel's
/// pointer ends one row past its last.
pub proof fn area_blit_combines_its_channels(
    r: BlitRegs,
    ram: Seq<u8>,
    y: int,
    x: int,
    i: int,
    at: int,
)
    requires
        ram.len() == CHIP_RAM_SIZE,
        r.con1 & 0x0001 == 0,
        clear_of_itself(r),
        0 < r.width,
    ensures
        enabled(r, 3) && in_blit(r, y, x) && 0 <= i < 16 ==> ram_bit(
            r.blitted(ram).1,
            chan_addr(r, 3, y, x),
            i,
        ) == out_bit(r, ram, y, x, i),
        0 <= at < ram.len() && !stored_over(r, r.height as int, 0, at) ==> r.blitted(ram).1[at]
            == ram[at],
        0 <= i < 4 ==> same_pointer(
            r.blitted(ram).0.pt[i] as int,
            if enabled(r, i) {
                chan_addr(r, i, r.height as int, 0)
            } else {
                r.pt[i] as int
            },
        ),
{
    let started = BlitRegs { pending: false, zero: true, ..r };
    let s = area::area_start(started, ram);
    lemma_alike_clear(r, started);
    lemma_start(started, ram);
    lemma_rows(started, ram, s, r.height as nat);
    let end = area::after_rows(started, s, r.height as nat);
    assert(r.blitted(ram).1 == end.ram);
    if enabled(r, 3) && in_blit(r, y, x) && 0 <= i < 16 {
        lemma_alike_addr(r, started, 3, y, x);
        lemma_alike_out(r, started, ram, y, x, i);
        assert(earlier(y, x, r.height as int, 0));
        assert(ram_bit(end.ram, chan_addr(started, 3, y, x), i) == out_bit(started, ram, y, x, i));
    }
    lemma_alike_over(r, started, r.height as int, 0, at);
    lemma_alike_addr(r, started, i, r.height as int, 0);
}

/// Whether every bit of every D word before (`y`, `x`) is clear.
pub open spec fn blank_before(r: BlitRegs, ram: Seq<u8>, y: int, x: int) -> bool {
    forall|y1: int, x1: int, i: int|
        in_blit(r, y1, x1) && earlier(y1, x1, y, x) && 0 <= i < 16 ==> !#[trigger] out_bit(
            r,
            ram,
            y1,
            x1,
            i,
        )
}

proof fn lemma_zero_word(d: u16)
    ensures
        d == 0 <==> forall|i: int| 0 <= i < 16 ==> !#[trigger] word::bit(d, i as u16),
{
    if d == 0 {
        assert forall|i: int| 0 <= i < 16 implies !#[trigger] word::bit(d, i as u16) by {
            lemma_no_bits(i as u16);
        }
    } else {
        assert((d >> 0u16) & 1 == 1 || (d >> 1u16) & 1 == 1 || (d >> 2u16) & 1 == 1 || (d >> 3u16)
            & 1 == 1 || (d >> 4u16) & 1 == 1 || (d >> 5u16) & 1 == 1 || (d >> 6u16) & 1 == 1 || (d
            >> 7u16) & 1 == 1 || (d >> 8u16) & 1 == 1 || (d >> 9u16) & 1 == 1 || (d >> 10u16) & 1
            == 1 || (d >> 11u16) & 1 == 1 || (d >> 12u16) & 1 == 1 || (d >> 13u16) & 1 == 1 || (d
            >> 14u16) & 1 == 1 || (d >> 15u16) & 1 == 1) by (bit_vector)
            requires
                d != 0,
        ;
        assert(word::bit(d, 0int as u16) || word::bit(d, 1int as u16) || word::bit(d, 2int as u16)
            || word::bit(d, 3int as u16) || word::bit(d, 4int as u16) || word::bit(d, 5int as u16)
            || word::bit(d, 6int as u16) || word::bit(d, 7int as u16) || word::bit(d, 8int as u16)
            || word::bit(d, 9int as u16) || word::bit(d, 10int as u16) || word::bit(d, 11int as u16)
            || word::bit(d, 12int as u16) || word::bit(d, 13int as u16) || word::bit(
            d,
            14int as u16,
        ) || word::bit(d, 15int as u16));
    }
}

/// One more word keeps the blit blank exactly when it is zero.
proof fn lemma_blank_grows(r: BlitRegs, ram: Seq<u8>, d: u16, y: int, x: int)
    requires
        in_blit(r, y, x),
        forall|i: int|
            0 <= i < 16 ==> #[trigger] word::bit(d, i as u16) == out_bit(r, ram, y, x, i),
    ensures
        blank_before(r, ram, y, x + 1) == (blank_before(r, ram, y, x) && d == 0),
{
    lemma_zero_word(d);
    if blank_before(r, ram, y, x) && d == 0 {
        assert forall|y1: int, x1: int, i: int|
            in_blit(r, y1, x1) && earlier(y1, x1, y, x + 1) && 0 <= i < 16 implies !#[trigger] out_bit(
            r,
            ram,
            y1,
            x1,
            i,
        ) by {
            if y1 == y && x1 == x {
                assert(!word::bit(d, i as u16));
            } else {
                assert(earlier(y1, x1, y, x));
            }
        }
    }
    if blank_before(r, ram, y, x + 1) {
        assert forall|y1: int, x1: int, i: int|
            in_blit(r, y1, x1) && earlier(y1, x1, y, x) && 0 <= i < 16 implies !#[trigger] out_bit(
            r,
            ram,
            y1,
            x1,
            i,
        ) by {
            assert(earlier(y1, x1, y, x + 1));
        }
        assert forall|i: int| 0 <= i < 16 implies !#[trigger] word::bit(d, i as u16) by {
            assert(earlier(y, x, y, x + 1));
            assert(!out_bit(r, ram, y, x, i));
        }
    }
}

proof fn lemma_row_blank(r: BlitRegs, ram: Seq<u8>, s: AreaState, y: int, n: nat)
    requires
        clear_of_itself(r),
        reached(r, ram, s, y, 0),
        carries(r, ram, s, y, 0),
        0 <= y < r.height,
        n <= r.width,
        area::all_zero(s.out) == blank_before(r, ram, y, 0),
    ensures
        area::all_zero(area::after_words(r, s, n).out) == blank_before(r, ram, y, n as int),
        n > 0 ==> forall|i: int|
            0 <= i < 16 ==> #[trigger] word::bit(
                area::last_word(area::after_words(r, s, n).out),
                i as u16,
            ) == out_bit(r, ram, y, n - 1, i),
    decreases n,
{
    if n > 0 {
        let m = (n - 1) as nat;
        lemma_row_blank(r, ram, s, y, m);
        lemma_row(r, ram, s, y, m);
        let t = area::after_words(r, s, m);
        lemma_word(r, ram, t, y, m as int);
        let d = area::d_word(r, t, m as int).0;
        lemma_blank_grows(r, ram, d, y, m as int);
        area::lemma_all_zero_push(t.out, d);
    }
}

proof fn lemma_rows_blank(r: BlitRegs, ram: Seq<u8>, s: AreaState, n: nat)
    requires
        clear_of_itself(r),
        reached(r, ram, s, 0, 0),
        n <= r.height,
        0 < r.width,
        area::all_zero(s.out),
    ensures
        area::all_zero(area::after_rows(r, s, n).out) == blank_before(r, ram, n as int, 0),
        n > 0 ==> forall|i: int|
            0 <= i < 16 ==> #[trigger] word::bit(
                area::last_word(area::after_rows(r, s, n).out),
                i as u16,
            ) == out_bit(r, ram, n - 1, r.width - 1, i),
    decreases n,
{
    if n > 0 {
        let m = (n - 1) as nat;
        lemma_rows_blank(r, ram, s, m);
        lemma_rows(r, ram, s, m);
        let t = area::row_start(r, area::after_rows(r, s, m));
        lemma_row_blank(r, ram, t, m as int, r.width as nat);
        let w = r.width as int;
        assert(blank_before(r, ram, m as int, w) == blank_before(r, ram, n as int, 0)) by {
            if blank_before(r, ram, m as int, w) {
                assert forall|y1: int, x1: int, i: int|
                    in_blit(r, y1, x1) && earlier(y1, x1, n as int, 0) && 0 <= i
                        < 16 implies !#[trigger] out_bit(r, ram, y1, x1, i) by {
                    assert(earlier(y1, x1, m as int, w));
                }
            }
            if blank_before(r, ram, n as int, 0) {
                assert forall|y1: int, x1: int, i: int|
                    in_blit(r, y1, x1) && earlier(y1, x1, m as int, w) && 0 <= i
                        < 16 implies !#[trigger] out_bit(r, ram, y1, x1, i) by {
                    assert(earlier(y1, x1, n as int, 0));
                }
            }
        }
    }
}

/// `BZERO` reads set after an area blit exactly when it made no set bit, and
/// `BLTDDAT` holds its last word.
pub proof fn area_blit_reports_what_it_made(r: BlitRegs, ram: Seq<u8>, i: int)
    requires
        ram.len() == CHIP_RAM_SIZE,
        r.con1 & 0x0001 == 0,
        clear_of_itself(r),
        0 < r.width,
    ensures
        r.blitted(ram).0.zero == (forall|y: int, x: int, j: int|
            in_blit(r, y, x) && 0 <= j < 16 ==> !#[trigger] out_bit(r, ram, y, x, j)),
        0 < r.height && 0 <= i < 16 ==> word::bit(r.blitted(ram).0.ddat, i as u16) == out_bit(
            r,
            ram,
            r.height - 1,
            r.width - 1,
            i,
        ),
{
    let started = BlitRegs { pending: false, zero: true, ..r };
    let s = area::area_start(started, ram);
    lemma_alike_clear(r, started);
    lemma_start(started, ram);
    lemma_rows_blank(started, ram, s, r.height as nat);
    let none = forall|y: int, x: int, j: int|
        in_blit(r, y, x) && 0 <= j < 16 ==> !#[trigger] out_bit(r, ram, y, x, j);
    let blank = blank_before(started, ram, r.height as int, 0);
    if none {
        assert forall|y: int, x: int, j: int|
            in_blit(started, y, x) && earlier(y, x, r.height as int, 0) && 0 <= j
                < 16 implies !#[trigger] out_bit(started, ram, y, x, j) by {
            lemma_alike_out(r, started, ram, y, x, j);
            assert(!out_bit(r, ram, y, x, j));
        }
    }
    if blank {
        assert forall|y: int, x: int, j: int| in_blit(r, y, x) && 0 <= j
            < 16 implies !#[trigger] out_bit(r, ram, y, x, j) by {
            lemma_alike_out(r, started, ram, y, x, j);
            assert(earlier(y, x, r.height as int, 0));
            assert(!out_bit(started, ram, y, x, j));
        }
    }
    lemma_alike_out(r, started, ram, r.height - 1, r.width - 1, i);
}

/// No shift, no mask and no fill.
pub open spec fn straight(r: BlitRegs) -> bool {
    &&& r.con1 & 0x0001 == 0
    &&& r.con0 / 4096 == 0
    &&& r.con1 / 4096 == 0
    &&& r.afwm == 0xFFFF
    &&& r.alwm == 0xFFFF
    &&& !filling(r)
}

proof fn lemma_all_ones(i: u16)
    by (bit_vector)
    requires
        i < 16,
    ensures
        word::bit(0xFFFF, i),
{
}

/// Straight copies: minterm `$F0` copies A, `$CC` copies B and `$AA` copies
/// C, each bit from where that channel's pointer puts it.
pub proof fn one_channel_is_copied(r: BlitRegs, ram: Seq<u8>, y: int, x: int, i: int)
    requires
        ram.len() == CHIP_RAM_SIZE,
        clear_of_itself(r),
        straight(r),
        enabled(r, 3),
        in_blit(r, y, x),
        0 <= i < 16,
    ensures
        r.con0 as int % 256 == 0xF0 && enabled(r, 0) ==> ram_bit(
            r.blitted(ram).1,
            chan_addr(r, 3, y, x),
            i,
        ) == ram_bit(ram, chan_addr(r, 0, y, x), i),
        r.con0 as int % 256 == 0xCC && enabled(r, 1) ==> ram_bit(
            r.blitted(ram).1,
            chan_addr(r, 3, y, x),
            i,
        ) == ram_bit(ram, chan_addr(r, 1, y, x), i),
        r.con0 as int % 256 == 0xAA && enabled(r, 2) ==> ram_bit(
            r.blitted(ram).1,
            chan_addr(r, 3, y, x),
            i,
        ) == ram_bit(ram, chan_addr(r, 2, y, x), i),
{
    area_blit_combines_its_channels(r, ram, y, x, i, 0);
    lemma_all_ones(i as u16);
}

/// The cookie cut: with minterm `$CA` the image (B) shows through where the
/// mask (A) is set, and the background (C) stays where it is clear.
pub proof fn cookie_cut_draws_the_image(r: BlitRegs, ram: Seq<u8>, y: int, x: int, i: int)
    requires
        ram.len() == CHIP_RAM_SIZE,
        clear_of_itself(r),
        straight(r),
        r.con0 as int % 256 == 0xCA,
        enabled(r, 0),
        enabled(r, 1),
        enabled(r, 2),
        enabled(r, 3),
        in_blit(r, y, x),
        0 <= i < 16,
    ensures
        ram_bit(r.blitted(ram).1, chan_addr(r, 3, y, x), i) == (if ram_bit(
            ram,
            chan_addr(r, 0, y, x),
            i,
        ) {
            ram_bit(ram, chan_addr(r, 1, y, x), i)
        } else {
            ram_bit(ram, chan_addr(r, 2, y, x), i)
        }),
{
    area_blit_combines_its_channels(r, ram, y, x, i, 0);
    lemma_all_ones(i as u16);
}

} // verus!
