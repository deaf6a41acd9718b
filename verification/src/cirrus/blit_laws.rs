//! What a BitBLT leaves in VRAM, byte by byte, from the programmed registers
//! and what VRAM and the host held before it.

use crate::cirrus::bitblt;
use crate::cirrus::bitblt::{BlitSetup, BlitState};
use crate::cirrus::laws;
use crate::cirrus::{CirrusState, SYSTEM_BLIT_CAPACITY};
use vstd::prelude::*;

verus! {

/// A transfer as a driver means it: a rectangle of `width` bytes by `height`
/// rows, and where each side starts and how far apart its rows are.
pub struct Rect {
    pub width: int,
    pub height: int,
    pub dst: int,
    pub dst_pitch: int,
    pub src: int,
    pub src_pitch: int,
}

/// Whether the graphics registers hold that rectangle.
pub open spec fn programmed(gr: Seq<u8>, t: Rect) -> bool {
    &&& gr.len() == 64
    &&& t.width - 1 == gr[0x21] % 8 * 256 + gr[0x20]
    &&& t.height - 1 == gr[0x23] % 4 * 256 + gr[0x22]
    &&& t.dst_pitch == gr[0x25] % 32 * 256 + gr[0x24]
    &&& t.src_pitch == gr[0x27] % 32 * 256 + gr[0x26]
    &&& t.dst == gr[0x2A] % 32 * 65536 + gr[0x29] * 256 + gr[0x28]
    &&& t.src == gr[0x2E] % 32 * 65536 + gr[0x2D] * 256 + gr[0x2C]
}

/// Whether the transfer runs towards lower addresses.
pub open spec fn backwards(gr: Seq<u8>) -> bool {
    gr[0x30] & 0x01 != 0
}

/// Whether pixels that match are left out.
pub open spec fn transparent(gr: Seq<u8>) -> bool {
    gr[0x30] & 0x08 != 0
}

/// Whether the source is an 8 by 8 tile.
pub open spec fn tiled(gr: Seq<u8>) -> bool {
    gr[0x30] & 0x40 != 0
}

/// Whether the source holds one bit per pixel.
pub open spec fn expanding(gr: Seq<u8>) -> bool {
    gr[0x30] & 0x80 != 0
}

/// Whether the rectangle is filled with the foreground colour.
pub open spec fn filling(gr: Seq<u8>) -> bool {
    tiled(gr) && expanding(gr) && !transparent(gr) && gr[0x33] & 0x04 != 0
}

/// Bytes per pixel.
pub open spec fn depth(gr: Seq<u8>) -> int {
    if gr[0x30] & 0x30 == 0x00 {
        1
    } else if gr[0x30] & 0x30 == 0x10 {
        2
    } else if gr[0x30] & 0x30 == 0x20 {
        3
    } else {
        4
    }
}

/// Byte `c` of the foreground or background colour.
pub open spec fn colour(gr: Seq<u8>, foreground: bool, c: int) -> u8 {
    if foreground {
        if c == 0 {
            gr[0x01]
        } else if c == 1 {
            gr[0x11]
        } else if c == 2 {
            gr[0x13]
        } else {
            gr[0x15]
        }
    } else {
        if c == 0 {
            gr[0x00]
        } else if c == 1 {
            gr[0x10]
        } else if c == 2 {
            gr[0x12]
        } else {
            gr[0x14]
        }
    }
}

/// The address of byte `x` of row `y` of one side of a transfer.
pub open spec fn place(gr: Seq<u8>, start: int, pitch: int, y: int, x: int) -> int {
    if backwards(gr) {
        start - y * pitch - x
    } else {
        start + y * pitch + x
    }
}

/// The destination of byte `x` of row `y`.
pub open spec fn dest(gr: Seq<u8>, t: Rect, y: int, x: int) -> int {
    place(gr, t.dst, t.dst_pitch, y, x)
}

pub open spec fn in_rect(t: Rect, y: int, x: int) -> bool {
    0 <= y < t.height && 0 <= x < t.width
}

/// A rectangle that VRAM is wide enough for and whose destination rows all
/// start inside it.
pub open spec fn fits(gr: Seq<u8>, t: Rect, vram: Seq<u8>) -> bool {
    &&& programmed(gr, t)
    &&& t.width <= vram.len()
    &&& backwards(gr) ==> (t.height - 1) * t.dst_pitch <= t.dst
}

/// No other byte of the rectangle has the same destination as this one.
pub open spec fn alone(gr: Seq<u8>, t: Rect, y: int, x: int) -> bool {
    forall|y1: int, x1: int|
        in_rect(t, y1, x1) && (y1 != y || x1 != x) ==> #[trigger] dest(gr, t, y1, x1) != dest(
            gr,
            t,
            y,
            x,
        )
}

/// No byte before this one is stored at `p`.
pub open spec fn intact(gr: Seq<u8>, t: Rect, y: int, x: int, p: int) -> bool {
    forall|y1: int, x1: int|
        in_rect(t, y1, x1) && (y1 < y || y1 == y && x1 < x) ==> #[trigger] dest(gr, t, y1, x1) != p
}

/// A byte of `data`, zero outside it.
pub open spec fn byte_of(data: Seq<u8>, at: int) -> u8 {
    if 0 <= at < data.len() {
        data[at]
    } else {
        0
    }
}

/// Bit `place` of a byte, counting from the most significant.
pub open spec fn bit_of(byte: u8, place: int) -> bool {
    (byte >> ((7 - place) as u8)) & 1 != 0
}

/// The transfer just before byte `x` of row `y`.
spec fn before(
    gr: Seq<u8>,
    vram: Seq<u8>,
    system: Option<Seq<u8>>,
    y: int,
    x: int,
) -> BlitState {
    let b = bitblt::blit_setup(gr, vram.len() as int);
    bitblt::after_bytes(
        gr,
        b,
        system,
        bitblt::after_rows(gr, b, system, bitblt::blit_start(b, vram), y as nat),
        y,
        x as nat,
    )
}

/// The programmed rectangle is the one the engine walks.
proof fn lemma_setup(gr: Seq<u8>, t: Rect, vram: Seq<u8>)
    requires
        fits(gr, t, vram),
    ensures
        ({
            let b = bitblt::blit_setup(gr, vram.len() as int);
            &&& b.width == t.width
            &&& b.height == t.height
            &&& b.dst_start == t.dst
            &&& b.dst_pitch == t.dst_pitch
            &&& b.src_start == t.src
            &&& b.src_pitch == t.src_pitch
            &&& b.pixel_bytes == depth(gr)
            &&& b.backwards == backwards(gr)
            &&& b.transparent == transparent(gr)
            &&& b.pattern == tiled(gr)
            &&& b.color_expand == expanding(gr)
            &&& b.solid_fill == filling(gr)
            &&& b.rop == gr[0x32]
            &&& b.invert == (gr[0x33] & 0x02 != 0)
            &&& b.bounded()
        }),
{
    let b = bitblt::blit_setup(gr, vram.len() as int);
    let w = t.width;
    let p = depth(gr);
    assert(b.system_pitch <= 2048) by {
        if !expanding(gr) {
            assert((w + 3) / 4 * 4 <= 2048);
        } else {
            let pixels = (w + p - 1) / p;
            assert(0 <= pixels <= 2048) by (nonlinear_arith)
                requires
                    pixels == (w + p - 1) / p,
                    1 <= w <= 2048,
                    1 <= p <= 4,
            ;
        }
    }
}

proof fn lemma_row_start(y: int, h: int, pitch: int)
    requires
        0 <= y < h,
        0 <= pitch,
    ensures
        0 <= y * pitch <= (h - 1) * pitch,
{
    assert(0 <= y * pitch <= (h - 1) * pitch) by (nonlinear_arith)
        requires
            0 <= y < h,
            0 <= pitch,
    ;
}

/// A side of the transfer that does not start before address zero.
proof fn lemma_place(gr: Seq<u8>, b: BlitSetup, start: usize, pitch: usize, h: int, y: int, x: int)
    requires
        0 <= y < h,
        b.backwards == backwards(gr),
        backwards(gr) ==> (h - 1) * pitch <= start,
    ensures
        b.along(b.line(start, pitch, y), x) == place(gr, start as int, pitch as int, y, x),
{
    lemma_row_start(y, h, pitch as int);
}

/// The destination addresses the engine stores to.
proof fn lemma_dest(gr: Seq<u8>, t: Rect, vram: Seq<u8>, y: int, x: int)
    requires
        fits(gr, t, vram),
        0 <= y < t.height,
    ensures
        ({
            let b = bitblt::blit_setup(gr, vram.len() as int);
            b.along(b.line(b.dst_start, b.dst_pitch, y), x) == dest(gr, t, y, x)
        }),
{
    let b = bitblt::blit_setup(gr, vram.len() as int);
    lemma_setup(gr, t, vram);
    lemma_place(gr, b, b.dst_start, b.dst_pitch, t.height, y, x);
}

/// A byte that no earlier byte is stored at still holds what it held.
proof fn lemma_intact(
    gr: Seq<u8>,
    t: Rect,
    vram: Seq<u8>,
    system: Option<Seq<u8>>,
    y: int,
    x: int,
    p: int,
)
    requires
        fits(gr, t, vram),
        in_rect(t, y, x),
        intact(gr, t, y, x, p),
    ensures
        before(gr, vram, system, y, x).vram.len() == vram.len(),
        0 <= p < vram.len() ==> before(gr, vram, system, y, x).vram[p] == vram[p],
{
    let b = bitblt::blit_setup(gr, vram.len() as int);
    let s = bitblt::blit_start(b, vram);
    let rows = bitblt::after_rows(gr, b, system, s, y as nat);
    lemma_setup(gr, t, vram);
    assert(!laws::rows_cover(b, y as nat, p)) by {
        if laws::rows_cover(b, y as nat, p) {
            let y1 = choose|y1: int|
                0 <= y1 < y && #[trigger] laws::row_covers(b, y1, b.width as nat, p);
            let x1 = choose|x1: int|
                0 <= x1 < b.width && #[trigger] b.along(
                    b.line(b.dst_start, b.dst_pitch, y1),
                    x1,
                ) == p;
            lemma_dest(gr, t, vram, y1, x1);
            assert(in_rect(t, y1, x1));
            assert(dest(gr, t, y1, x1) != p);
        }
    }
    assert(!laws::row_covers(b, y, x as nat, p)) by {
        if laws::row_covers(b, y, x as nat, p) {
            let x1 = choose|x1: int|
                0 <= x1 < x && #[trigger] b.along(b.line(b.dst_start, b.dst_pitch, y), x1) == p;
            lemma_dest(gr, t, vram, y, x1);
            assert(in_rect(t, y, x1));
            assert(dest(gr, t, y, x1) != p);
        }
    }
    laws::lemma_rows_confined(gr, b, system, s, y as nat, p);
    laws::lemma_bytes_len(gr, b, system, rows, y, x as nat);
    if 0 <= p < vram.len() {
        laws::lemma_bytes_confined(gr, b, system, rows, y, x as nat, p);
    }
}

/// Bytes of a row that are not stored at `at` leave it.
proof fn lemma_later_bytes_keep(
    gr: Seq<u8>,
    b: BlitSetup,
    system: Option<Seq<u8>>,
    s: BlitState,
    y: int,
    done: nat,
    n: nat,
    at: int,
)
    requires
        done <= n,
        0 <= at < s.vram.len(),
        forall|x: int|
            done <= x < n ==> #[trigger] b.along(b.line(b.dst_start, b.dst_pitch, y), x) != at,
    ensures
        bitblt::after_bytes(gr, b, system, s, y, n).vram.len() == s.vram.len(),
        bitblt::after_bytes(gr, b, system, s, y, n).vram[at] == bitblt::after_bytes(
            gr,
            b,
            system,
            s,
            y,
            done,
        ).vram[at],
    decreases n,
{
    laws::lemma_bytes_len(gr, b, system, s, y, n);
    if done < n {
        let m = (n - 1) as nat;
        laws::lemma_bytes_len(gr, b, system, s, y, m);
        lemma_later_bytes_keep(gr, b, system, s, y, done, m, at);
        assert(b.along(b.line(b.dst_start, b.dst_pitch, y), m as int) != at);
    }
}

/// What ends up in a destination byte is decided when it is reached.
proof fn lemma_final(
    gr: Seq<u8>,
    t: Rect,
    vram: Seq<u8>,
    system: Option<Seq<u8>>,
    y: int,
    x: int,
)
    requires
        fits(gr, t, vram),
        in_rect(t, y, x),
        alone(gr, t, y, x),
        0 <= dest(gr, t, y, x) < vram.len(),
    ensures
        ({
            let b = bitblt::blit_setup(gr, vram.len() as int);
            let at = dest(gr, t, y, x);
            let st = before(gr, vram, system, y, x);
            bitblt::blit_result(gr, vram, system).1[at] == (if bitblt::skips(
                gr,
                b,
                system,
                st,
                y,
                x,
            ) {
                vram[at]
            } else {
                bitblt::rop_byte(
                    gr[0x32],
                    bitblt::source_byte(gr, b, system, st, y, x),
                    vram[at],
                )
            })
        }),
{
    let b = bitblt::blit_setup(gr, vram.len() as int);
    let at = dest(gr, t, y, x);
    let s = bitblt::blit_start(b, vram);
    let rows = bitblt::after_rows(gr, b, system, s, y as nat);
    lemma_setup(gr, t, vram);
    lemma_dest(gr, t, vram, y, x);
    lemma_intact(gr, t, vram, system, y, x, at);
    laws::lemma_rows_confined(gr, b, system, s, y as nat, at);
    assert forall|x1: int| x + 1 <= x1 < b.width implies #[trigger] b.along(
        b.line(b.dst_start, b.dst_pitch, y),
        x1,
    ) != at by {
        lemma_dest(gr, t, vram, y, x1);
        assert(in_rect(t, y, x1));
        assert(dest(gr, t, y, x1) != at);
    }
    lemma_later_bytes_keep(gr, b, system, rows, y, (x + 1) as nat, b.width as nat, at);
    assert forall|y1: int| y + 1 <= y1 < b.height implies !#[trigger] laws::row_covers(
        b,
        y1,
        b.width as nat,
        at,
    ) by {
        if laws::row_covers(b, y1, b.width as nat, at) {
            let x1 = choose|x1: int|
                0 <= x1 < b.width && #[trigger] b.along(
                    b.line(b.dst_start, b.dst_pitch, y1),
                    x1,
                ) == at;
            lemma_dest(gr, t, vram, y1, x1);
            assert(in_rect(t, y1, x1));
            assert(dest(gr, t, y1, x1) != at);
        }
    }
    laws::lemma_later_rows_keep(gr, b, system, s, (y + 1) as nat, b.height as nat, at);
    assert(bitblt::after_bytes(gr, b, system, rows, y, (x + 1) as nat) == bitblt::after_byte(
        gr,
        b,
        system,
        before(gr, vram, system, y, x),
        y,
        x,
    ));
}

/// A solid fill combines every byte of its rectangle with the matching byte
/// of the foreground colour, whatever the source registers hold. With the
/// copying operation the colour itself is left there.
pub proof fn fill_paints_the_foreground(
    gr: Seq<u8>,
    t: Rect,
    vram: Seq<u8>,
    y: int,
    x: int,
)
    requires
        fits(gr, t, vram),
        filling(gr),
        in_rect(t, y, x),
        alone(gr, t, y, x),
        0 <= dest(gr, t, y, x) < vram.len(),
    ensures
        ({
            let at = dest(gr, t, y, x);
            let after = bitblt::blit_result(gr, vram, None).1[at];
            let paint = colour(gr, true, x % depth(gr));
            &&& after == bitblt::rop_byte(gr[0x32], paint, vram[at])
            &&& gr[0x32] == 0x0D ==> after == paint
        }),
{
    lemma_setup(gr, t, vram);
    lemma_final(gr, t, vram, None, y, x);
}

/// Byte `x` of row `y` of a source of whole pixels: the host's data, its rows
/// padded to four bytes, or VRAM; zero outside either.
pub open spec fn plain_source(
    gr: Seq<u8>,
    t: Rect,
    vram: Seq<u8>,
    system: Option<Seq<u8>>,
    y: int,
    x: int,
) -> u8 {
    match system {
        Some(data) => byte_of(data, y * ((t.width + 3) / 4 * 4) + x),
        None => byte_of(vram, place(gr, t.src, t.src_pitch, y, x)),
    }
}

/// Whether byte `c` of the pixel at byte `base` of row `y` agrees with the
/// colour to leave out, on the bits that its mask leaves.
pub open spec fn agrees(
    gr: Seq<u8>,
    t: Rect,
    vram: Seq<u8>,
    system: Option<Seq<u8>>,
    y: int,
    base: int,
    c: int,
) -> bool {
    plain_source(gr, t, vram, system, y, base + c) & !gr[0x38 + c] == gr[0x34 + c] & !gr[0x38 + c]
}

/// A copy, from the host or from VRAM, forwards or backwards: every byte of
/// the rectangle is combined with the source byte that stands at the same
/// place, as VRAM or the host held it before the transfer. A transparent
/// copy leaves alone the pixels whose every byte agrees with the compare
/// colour. With the copying operation the source byte itself is left there.
pub proof fn copy_moves_the_source(
    gr: Seq<u8>,
    t: Rect,
    vram: Seq<u8>,
    system: Option<Seq<u8>>,
    y: int,
    x: int,
)
    requires
        fits(gr, t, vram),
        !tiled(gr),
        !expanding(gr),
        in_rect(t, y, x),
        alone(gr, t, y, x),
        0 <= dest(gr, t, y, x) < vram.len(),
        system is None && backwards(gr) ==> (t.height - 1) * t.src_pitch <= t.src,
        system is None ==> forall|c: int|
            0 <= c < depth(gr) ==> intact(
                gr,
                t,
                y,
                x,
                #[trigger] place(gr, t.src, t.src_pitch, y, x - x % depth(gr) + c),
            ),
    ensures
        ({
            let at = dest(gr, t, y, x);
            let after = bitblt::blit_result(gr, vram, system).1[at];
            let source = plain_source(gr, t, vram, system, y, x);
            let left_out = transparent(gr) && forall|c: int|
                0 <= c < depth(gr) ==> #[trigger] agrees(
                    gr,
                    t,
                    vram,
                    system,
                    y,
                    x - x % depth(gr),
                    c,
                );
            &&& left_out ==> after == vram[at]
            &&& !left_out ==> after == bitblt::rop_byte(gr[0x32], source, vram[at])
            &&& !left_out && gr[0x32] == 0x0D ==> after == source
        }),
{
    let b = bitblt::blit_setup(gr, vram.len() as int);
    let st = before(gr, vram, system, y, x);
    let p = depth(gr);
    let base = x - x % p;
    lemma_setup(gr, t, vram);
    lemma_final(gr, t, vram, system, y, x);
    assert(0 <= x % p < p);
    assert forall|c: int| 0 <= c < p implies bitblt::linear_source(
        b,
        system,
        st.vram,
        false,
        y,
        base + c,
    ) == #[trigger] plain_source(gr, t, vram, system, y, base + c) by {
        match system {
            Some(_) => {
                assert(b.system_pitch == (t.width + 3) / 4 * 4);
            },
            None => {
                let q = place(gr, t.src, t.src_pitch, y, base + c);
                lemma_place(gr, b, b.src_start, b.src_pitch, t.height, y, base + c);
                assert(intact(gr, t, y, x, q));
                lemma_intact(gr, t, vram, system, y, x, q);
            },
        }
    }
    assert(plain_source(gr, t, vram, system, y, base + x % p) == plain_source(
        gr,
        t,
        vram,
        system,
        y,
        x,
    ));
    assert forall|c: int| 0 <= c < p implies #[trigger] agrees(gr, t, vram, system, y, base, c)
        == bitblt::component_matches(gr, b, system, st.vram, y, base, c) by {
        assert(plain_source(gr, t, vram, system, y, base + c) == bitblt::linear_source(
            b,
            system,
            st.vram,
            false,
            y,
            base + c,
        ));
    }
    if transparent(gr) {
        let all = forall|c: int|
            0 <= c < p ==> #[trigger] agrees(gr, t, vram, system, y, base, c);
        let engine = forall|c: int|
            0 <= c < b.pixel_bytes ==> #[trigger] bitblt::component_matches(
                gr,
                b,
                system,
                st.vram,
                y,
                base,
                c,
            );
        if all {
            assert forall|c: int| 0 <= c < b.pixel_bytes implies #[trigger] bitblt::component_matches(
                gr,
                b,
                system,
                st.vram,
                y,
                base,
                c,
            ) by {
                assert(agrees(gr, t, vram, system, y, base, c));
            }
        }
        if engine {
            assert forall|c: int| 0 <= c < p implies #[trigger] agrees(
                gr,
                t,
                vram,
                system,
                y,
                base,
                c,
            ) by {
                assert(bitblt::component_matches(gr, b, system, st.vram, y, base, c));
            }
        }
        assert(all == engine);
        assert(bitblt::skips(gr, b, system, st, y, x) == engine);
    }
}

/// A coloured pattern repeats its 8 by 8 tile, which starts at the source
/// address rounded down to four bytes and holds its rows one after another:
/// rows eight apart, and bytes a tile's width apart, get the same source.
pub proof fn pattern_repeats_its_tile(
    gr: Seq<u8>,
    t: Rect,
    vram: Seq<u8>,
    y: int,
    x: int,
)
    requires
        fits(gr, t, vram),
        tiled(gr),
        !expanding(gr),
        in_rect(t, y, x),
        alone(gr, t, y, x),
        0 <= dest(gr, t, y, x) < vram.len(),
        intact(
            gr,
            t,
            y,
            x,
            t.src - t.src % 4 + y % 8 * (8 * depth(gr)) + x % (8 * depth(gr)),
        ),
    ensures
        ({
            let at = dest(gr, t, y, x);
            let after = bitblt::blit_result(gr, vram, None).1[at];
            let tile = byte_of(
                vram,
                t.src - t.src % 4 + y % 8 * (8 * depth(gr)) + x % (8 * depth(gr)),
            );
            &&& after == bitblt::rop_byte(gr[0x32], tile, vram[at])
            &&& gr[0x32] == 0x0D ==> after == tile
        }),
{
    lemma_setup(gr, t, vram);
    lemma_final(gr, t, vram, None, y, x);
    lemma_intact(
        gr,
        t,
        vram,
        None,
        y,
        x,
        t.src - t.src % 4 + y % 8 * (8 * depth(gr)) + x % (8 * depth(gr)),
    );
}

/// Bytes in a row of a host-fed bit source: one bit per pixel, padded to
/// bytes or, if so programmed, to four bytes.
pub open spec fn bit_row(gr: Seq<u8>, t: Rect) -> int {
    let pixels = (t.width + depth(gr) - 1) / depth(gr);
    if gr[0x33] & 0x01 != 0 {
        (pixels + 31) / 32 * 4
    } else {
        (pixels + 7) / 8
    }
}

/// Where in VRAM the source bit of byte `x` of row `y` lies: in the tile's
/// row, or in a stream of rows that each start on a new byte.
pub open spec fn bit_place(gr: Seq<u8>, t: Rect, y: int, x: int) -> int {
    let p = depth(gr);
    if tiled(gr) {
        t.src + y % 8
    } else {
        let along = y * ((t.width + 8 * p - 1) / (8 * p)) + x / p / 8;
        if backwards(gr) {
            t.src - along
        } else {
            t.src + along
        }
    }
}

/// The source bit of byte `x` of row `y`, most significant first.
pub open spec fn source_bit(
    gr: Seq<u8>,
    t: Rect,
    vram: Seq<u8>,
    system: Option<Seq<u8>>,
    y: int,
    x: int,
) -> bool {
    let pixel = x / depth(gr);
    match system {
        Some(data) if !tiled(gr) => bit_of(
            byte_of(data, y * bit_row(gr, t) + pixel / 8),
            pixel % 8,
        ),
        _ => bit_of(byte_of(vram, bit_place(gr, t, y, x)), pixel % 8),
    }
}

/// A whole number of source bytes further along the stream.
spec fn further(b: BlitSetup, addr: int, n: int) -> int {
    if b.backwards {
        addr - n
    } else {
        addr + n
    }
}

/// Counting in units of eight pixels of `p` bytes.
proof fn lemma_units(p: int, unit: int, n: int)
    requires
        1 <= p <= 4,
        unit == 8 * p,
        0 <= n <= 4096,
    ensures
        0 <= n / unit <= n,
        0 <= n % unit < unit,
        n % unit + 1 == unit ==> (n + 1) / unit == n / unit + 1 && (n + 1) % unit == 0,
        n % unit + 1 != unit ==> (n + 1) / unit == n / unit && (n + 1) % unit == n % unit + 1,
        (n + unit - 1) / unit == n / unit + (if n % unit != 0 {
            1int
        } else {
            0
        }),
        (n + unit - 1) / unit <= n / 8 + 1,
        0int / unit == 0,
        0int % unit == 0,
        n / p / 8 == n / unit,
        n % unit / p == n / p % 8,
{
    let k = n / p % 8;
    vstd::arithmetic::div_mod::lemma_div_denominator(n, p, 8);
    vstd::arithmetic::div_mod::lemma_mod_breakdown(n, p, 8);
    assert(p * 8 == unit);
    vstd::arithmetic::div_mod::lemma_mod_bound(n, p);
    vstd::arithmetic::div_mod::lemma_div_multiples_vanish_fancy(k, n % p, p);
    assert(n % unit / p == k);
    if p == 1 {
        lemma_unit_steps(unit, n, 8);
    } else if p == 2 {
        lemma_unit_steps(unit, n, 16);
    } else if p == 3 {
        lemma_unit_steps(unit, n, 24);
    } else {
        lemma_unit_steps(unit, n, 32);
    }
}

/// One more byte of a unit of `k` bytes.
proof fn lemma_unit_steps(unit: int, n: int, k: int)
    requires
        unit == k,
        k == 8 || k == 16 || k == 24 || k == 32,
        0 <= n <= 4096,
    ensures
        0 <= n / unit <= n,
        0 <= n % unit < unit,
        n % unit + 1 == unit ==> (n + 1) / unit == n / unit + 1 && (n + 1) % unit == 0,
        n % unit + 1 != unit ==> (n + 1) / unit == n / unit && (n + 1) % unit == n % unit + 1,
        (n + unit - 1) / unit == n / unit + (if n % unit != 0 {
            1int
        } else {
            0
        }),
        (n + unit - 1) / unit <= n / 8 + 1,
        0int / unit == 0,
        0int % unit == 0,
{
    if k == 8 {
        assert(n / unit == n / 8int && (n + 1) / unit == (n + 1) / 8int && n % unit == n % 8int && (n
            + 1) % unit == (n + 1) % 8int && (n + unit - 1) / unit == (n + 7int) / 8int);
    } else if k == 16 {
        assert(n / unit == n / 16int && (n + 1) / unit == (n + 1) / 16int && n % unit == n % 16int && (n
            + 1) % unit == (n + 1) % 16int && (n + unit - 1) / unit == (n + 15int) / 16int);
    } else if k == 24 {
        assert(n / unit == n / 24int && (n + 1) / unit == (n + 1) / 24int && n % unit == n % 24int && (n
            + 1) % unit == (n + 1) % 24int && (n + unit - 1) / unit == (n + 23int) / 24int);
    } else {
        assert(n / unit == n / 32int && (n + 1) / unit == (n + 1) / 32int && n % unit == n % 32int && (n
            + 1) % unit == (n + 1) % 32int && (n + unit - 1) / unit == (n + 31int) / 32int);
    }
}

proof fn lemma_stream_bytes(gr: Seq<u8>, b: BlitSetup, s: BlitState, y: int, n: nat)
    requires
        b.streams(None),
        1 <= b.pixel_bytes <= 4,
        s.expand.count == 0,
        -0x100_0000 <= s.expand.addr <= 0x100_0000,
        n <= 4096,
    ensures
        ({
            let e = bitblt::after_bytes(gr, b, None, s, y, n).expand;
            let unit = 8 * b.pixel_bytes;
            &&& e.addr == further(b, s.expand.addr as int, n as int / unit)
            &&& e.count == n as int % unit
        }),
    decreases n,
{
    let p = b.pixel_bytes as int;
    if n > 0 {
        let m = (n - 1) as nat;
        lemma_stream_bytes(gr, b, s, y, m);
        lemma_units(p, 8 * p, m as int);
    } else {
        lemma_units(p, 8 * p, 0);
    }
}

/// Rows of a bit stream start on a new byte each.
proof fn lemma_stream_rows(gr: Seq<u8>, b: BlitSetup, vram: Seq<u8>, n: nat)
    requires
        b.streams(None),
        b.bounded(),
        n <= 1024,
    ensures
        ({
            let e = bitblt::after_rows(gr, b, None, bitblt::blit_start(b, vram), n).expand;
            let unit = 8 * b.pixel_bytes;
            &&& e.addr == further(
                b,
                b.src_start as int,
                n * ((b.width + unit - 1) / unit),
            )
            &&& e.count == 0
        }),
        0 <= n * ((b.width + 8 * b.pixel_bytes - 1) / (8 * b.pixel_bytes)) <= n * 257,
    decreases n,
{
    let p = b.pixel_bytes as int;
    let rb = (b.width + 8 * p - 1) / (8 * p);
    lemma_units(p, 8 * p, b.width as int);
    assert(0 <= rb <= 257);
    assert(0 <= n * rb <= n * 257) by (nonlinear_arith)
        requires
            0 <= rb <= 257,
    ;
    if n > 0 {
        let m = (n - 1) as nat;
        lemma_stream_rows(gr, b, vram, m);
        let s = bitblt::after_rows(gr, b, None, bitblt::blit_start(b, vram), m);
        assert(n * rb == m * rb + rb) by (nonlinear_arith)
            requires
                n == m + 1,
        ;
        lemma_stream_bytes(gr, b, s, m as int, b.width as nat);
    } else {
        assert(0 * rb == 0);
    }
}

/// The bit the engine expands is the source bit.
proof fn lemma_source_bit(
    gr: Seq<u8>,
    t: Rect,
    vram: Seq<u8>,
    system: Option<Seq<u8>>,
    y: int,
    x: int,
)
    requires
        fits(gr, t, vram),
        expanding(gr),
        in_rect(t, y, x),
        system is None || tiled(gr) ==> intact(gr, t, y, x, bit_place(gr, t, y, x)),
    ensures
        bitblt::expand_bit(
            bitblt::blit_setup(gr, vram.len() as int),
            system,
            before(gr, vram, system, y, x),
            y,
            x,
        ) == source_bit(gr, t, vram, system, y, x),
{
    let b = bitblt::blit_setup(gr, vram.len() as int);
    let st = before(gr, vram, system, y, x);
    let p = depth(gr);
    lemma_setup(gr, t, vram);
    lemma_units(p, 8 * p, x);
    if system is None || tiled(gr) {
        lemma_intact(gr, t, vram, system, y, x, bit_place(gr, t, y, x));
    }
    if !tiled(gr) {
        match system {
            Some(_) => {
                assert(b.system_pitch == bit_row(gr, t));
            },
            None => {
                let start = bitblt::blit_start(b, vram);
                let rows = bitblt::after_rows(gr, b, None, start, y as nat);
                lemma_stream_rows(gr, b, vram, y as nat);
                lemma_stream_bytes(gr, b, rows, y, x as nat);
                assert(st.expand.addr == bit_place(gr, t, y, x));
            },
        }
    }
}

/// Colour expansion turns each source bit into a pixel: the foreground
/// colour where it is set, the background colour where it is clear, combined
/// with what was there. The bits come from an 8 by 8 tile, from the host or
/// from a stream in VRAM, one per pixel, most significant first. A
/// transparent expansion leaves alone the pixels whose bit is clear, or set
/// if so programmed.
pub proof fn expansion_colours_the_bits(
    gr: Seq<u8>,
    t: Rect,
    vram: Seq<u8>,
    system: Option<Seq<u8>>,
    y: int,
    x: int,
)
    requires
        fits(gr, t, vram),
        expanding(gr),
        !filling(gr),
        in_rect(t, y, x),
        alone(gr, t, y, x),
        0 <= dest(gr, t, y, x) < vram.len(),
        system is None || tiled(gr) ==> intact(gr, t, y, x, bit_place(gr, t, y, x)),
    ensures
        ({
            let at = dest(gr, t, y, x);
            let after = bitblt::blit_result(gr, vram, system).1[at];
            let bit = source_bit(gr, t, vram, system, y, x);
            let paint = colour(gr, bit, x % depth(gr));
            let left_out = transparent(gr) && bit == (gr[0x33] & 0x02 != 0);
            &&& left_out ==> after == vram[at]
            &&& !left_out ==> after == bitblt::rop_byte(gr[0x32], paint, vram[at])
            &&& !left_out && gr[0x32] == 0x0D ==> after == paint
        }),
{
    lemma_setup(gr, t, vram);
    lemma_final(gr, t, vram, system, y, x);
    lemma_source_bit(gr, t, vram, system, y, x);
}

/// Uploading an image. Once a host-fed copy is started, the bytes pushed
/// through the aperture are its image, row after row, each padded to four
/// bytes: when the last has arrived, byte `x` of row `y` of the rectangle
/// holds the byte that was sent for it, whatever the source address and
/// pitch registers hold.
pub proof fn uploaded_image_appears(
    c: CirrusState,
    start: u8,
    t: Rect,
    bytes: Seq<u8>,
    y: int,
    x: int,
)
    requires
        c.gr.len() == 64,
        c.gr_index % 64 == 0x31,
        c.unlocked(),
        start & 0x02 != 0,
        start & 0x04 == 0,
        c.gr[0x30] & 0x04 != 0,
        !tiled(c.gr),
        !expanding(c.gr),
        !transparent(c.gr),
        c.gr[0x32] == 0x0D,
        fits(c.gr, t, c.vram),
        bytes.len() == (t.width + 3) / 4 * 4 * t.height,
        bytes.len() <= SYSTEM_BLIT_CAPACITY,
        in_rect(t, y, x),
        alone(c.gr, t, y, x),
        0 <= dest(c.gr, t, y, x) < c.vram.len(),
    ensures
        laws::pushed(c.graphics_written(start), bytes).vram[dest(c.gr, t, y, x)] == bytes[y * ((
        t.width + 3) / 4 * 4) + x],
        laws::pushed(c.graphics_written(start), bytes).system_blit is None,
{
    let armed = c.graphics_written(start);
    let gr = c.gr.update(0x31, start);
    let pitch = (t.width + 3) / 4 * 4;
    assert(armed.gr == gr);
    lemma_setup(c.gr, t, c.vram);
    assert(bitblt::system_bytes(gr) == pitch * t.height);
    assert(4 <= bytes.len() <= 2048 * 1024) by (nonlinear_arith)
        requires
            bytes.len() == pitch * t.height,
            4 <= pitch <= 2048,
            1 <= t.height <= 1024,
    ;
    laws::system_source_waits_for_every_byte(armed, bytes.len() as usize, bytes);
    assert(bytes.take(bytes.len() as int) =~= bytes);
    assert(alone(gr, t, y, x)) by {
        assert forall|y1: int, x1: int|
            in_rect(t, y1, x1) && (y1 != y || x1 != x) implies #[trigger] dest(gr, t, y1, x1)
            != dest(gr, t, y, x) by {
            assert(dest(c.gr, t, y1, x1) != dest(c.gr, t, y, x));
        }
    }
    copy_moves_the_source(gr, t, c.vram, Some(bytes), y, x);
    assert(0 <= y * pitch + x < bytes.len()) by (nonlinear_arith)
        requires
            0 <= y < t.height,
            0 <= x < pitch,
            bytes.len() == pitch * t.height,
    ;
}

/// What a raster operation makes of a source bit and a destination bit, as a
/// table: bit 3 for both set, bit 2 for the source alone, bit 1 for the
/// destination alone, bit 0 for neither.
pub open spec fn raster_table(rop: u8) -> u8 {
    if rop == 0x00 {
        0x0
    } else if rop == 0x90 {
        0x1
    } else if rop == 0x50 {
        0x2
    } else if rop == 0xD0 {
        0x3
    } else if rop == 0x09 {
        0x4
    } else if rop == 0x0B {
        0x5
    } else if rop == 0x59 {
        0x6
    } else if rop == 0xDA {
        0x7
    } else if rop == 0x05 {
        0x8
    } else if rop == 0x95 {
        0x9
    } else if rop == 0x06 {
        0xA
    } else if rop == 0xD6 {
        0xB
    } else if rop == 0xAD {
        0xD
    } else if rop == 0x6D {
        0xE
    } else if rop == 0x0E {
        0xF
    } else {
        0xC
    }
}

/// Every raster operation combines source and destination bit by bit, after
/// its table; a code without one copies the source.
pub proof fn raster_operations_follow_their_table(rop: u8, source: u8, dest: u8, i: u8)
    by (bit_vector)
    requires
        i < 8,
    ensures
        (bitblt::rop_byte(rop, source, dest) >> i) & 1 == (raster_table(rop) >> (((((source >> i)
            & 1) << 1) | ((dest >> i) & 1)) as u8)) & 1,
{
}

/// A transfer changes VRAM only at the destinations of its rectangle.
pub proof fn the_rest_of_the_picture_stays(
    gr: Seq<u8>,
    t: Rect,
    vram: Seq<u8>,
    system: Option<Seq<u8>>,
    at: int,
)
    requires
        fits(gr, t, vram),
        0 <= at < vram.len(),
        forall|y: int, x: int| in_rect(t, y, x) ==> #[trigger] dest(gr, t, y, x) != at,
    ensures
        bitblt::blit_result(gr, vram, system).1[at] == vram[at],
        bitblt::blit_result(gr, vram, system).1.len() == vram.len(),
{
    let b = bitblt::blit_setup(gr, vram.len() as int);
    lemma_setup(gr, t, vram);
    laws::blit_stays_in_its_rectangle(gr, vram, system, at);
    if laws::rows_cover(b, b.height as nat, at) {
        let y = choose|y: int|
            0 <= y < b.height && #[trigger] laws::row_covers(b, y, b.width as nat, at);
        let x = choose|x: int|
            0 <= x < b.width && #[trigger] b.along(b.line(b.dst_start, b.dst_pitch, y), x) == at;
        lemma_dest(gr, t, vram, y, x);
        assert(in_rect(t, y, x) && dest(gr, t, y, x) == at);
    }
}

/// The 21-bit address that three registers hold.
pub open spec fn address_at(gr: Seq<u8>, low: int) -> int {
    gr[low + 2] % 32 * 65536 + gr[low + 1] * 256 + gr[low]
}

/// The address registers count: after a transfer the destination stands one
/// past the last byte it wrote, and so does the source of a copy out of VRAM.
/// A source that the host sent, and a tile, stay where they were; a source of
/// bits has moved by the bytes of every row. No other register changes.
pub proof fn address_registers_count(
    gr: Seq<u8>,
    t: Rect,
    vram: Seq<u8>,
    system: Option<Seq<u8>>,
    i: int,
)
    requires
        fits(gr, t, vram),
        0 <= i < 64,
    ensures
        ({
            let after = bitblt::blit_result(gr, vram, system).0;
            let dst_end = dest(gr, t, t.height - 1, t.width);
            let src_end = if system is Some || tiled(gr) {
                t.src
            } else if expanding(gr) {
                if backwards(gr) {
                    t.src - t.height * ((t.width + 8 * depth(gr) - 1) / (8 * depth(gr)))
                } else {
                    t.src + t.height * ((t.width + 8 * depth(gr) - 1) / (8 * depth(gr)))
                }
            } else {
                place(gr, t.src, t.src_pitch, t.height - 1, t.width)
            };
            &&& address_at(after, 0x28) == dst_end % 0x20_0000
            &&& address_at(after, 0x2C) == src_end % 0x20_0000
            &&& !(0x28 <= i < 0x2B) && !(0x2C <= i < 0x2F) ==> after[i] == gr[i]
        }),
{
    let b = bitblt::blit_setup(gr, vram.len() as int);
    lemma_setup(gr, t, vram);
    let dst_end = bitblt::counter_end(b, b.dst_start, b.dst_pitch);
    assert((b.height - 1) * b.dst_pitch == (t.height - 1) * t.dst_pitch);
    assert((b.height - 1) * b.src_pitch == (t.height - 1) * t.src_pitch);
    assert(dst_end == dest(gr, t, t.height - 1, t.width));
    if system is None && !tiled(gr) && expanding(gr) {
        lemma_stream_rows(gr, b, vram, b.height as nat);
        assert(b.pixel_bytes == depth(gr));
    }
    let s = bitblt::after_rows(gr, b, system, bitblt::blit_start(b, vram), b.height as nat);
    let src_end = if b.pattern || system is Some {
        b.src_start as int
    } else if b.color_expand {
        s.expand.addr as int
    } else {
        bitblt::counter_end(b, b.src_start, b.src_pitch)
    };
    let mid = bitblt::with_blit_addr(gr, 0x28, dst_end);
    laws::blit_address_reads_back(gr, 0x28, dst_end);
    laws::blit_address_reads_back(mid, 0x2C, src_end);
    let after = bitblt::with_blit_addr(mid, 0x2C, src_end);
    assert(bitblt::blit_result(gr, vram, system).0 == after);
    assert(address_at(after, 0x28) == address_at(mid, 0x28));
}

/// A host-fed transfer waits for exactly the bytes of its rows: rows of whole
/// pixels padded to four bytes, or rows of bits padded to one byte or four.
pub proof fn a_host_fed_transfer_waits_for_its_rows(c: CirrusState, start: u8, t: Rect)
    requires
        programmed(c.gr, t),
        c.gr_index % 64 == 0x31,
        c.unlocked(),
        start & 0x02 != 0,
        start & 0x04 == 0,
        c.gr[0x30] & 0x04 != 0,
    ensures
        ({
            let row = if expanding(c.gr) {
                bit_row(c.gr, t)
            } else {
                (t.width + 3) / 4 * 4
            };
            let armed = c.graphics_written(start);
            &&& armed.system_blit is Some
            &&& armed.system_blit->0.remaining == row * t.height
            &&& armed.system_blit->0.data.len() == 0
            &&& armed.vram == c.vram
        }),
{
    let gr = c.gr.update(0x31, start);
    let armed = c.graphics_written(start);
    assert(armed.gr == gr);
    let p = depth(gr);
    let pixels = (t.width + p - 1) / p;
    assert(1 <= pixels <= 2048) by (nonlinear_arith)
        requires
            pixels == (t.width + p - 1) / p,
            1 <= t.width <= 2048,
            1 <= p <= 4,
    ;
    let row = if expanding(c.gr) {
        bit_row(c.gr, t)
    } else {
        (t.width + 3) / 4 * 4
    };
    assert(bitblt::system_source_pitch(gr, t.width) == row);
    assert(0 <= row * t.height <= 2048 * 1024) by (nonlinear_arith)
        requires
            0 <= row <= 2048,
            1 <= t.height <= 1024,
    ;
}

} // verus!
