//! What holds of the chip as a whole.

use crate::cirrus::bitblt;
use crate::cirrus::bitblt::{BlitSetup, BlitState};
use crate::cirrus::blit_status;
use crate::cirrus::crtc11;
use crate::cirrus::idx;
use crate::cirrus::port;
use crate::cirrus::{ChipRevision, CirrusState, Feed, Rgb, SYSTEM_BLIT_CAPACITY};
use crate::OPEN_BUS_BYTE;
use vstd::prelude::*;

verus! {

/// The register files have the sizes the chip gives them.
pub open spec fn sized(c: CirrusState) -> bool {
    &&& c.sr.len() == 32
    &&& c.crtc.len() == 64
    &&& c.gr.len() == 64
    &&& c.ar.len() == 32
    &&& c.palette.len() == 256
    &&& c.cursor_palette.len() == 16
}

/// While the extensions are locked, an extended register of any of the
/// three indexed files reads open bus and takes no write.
pub proof fn locked_extensions_float(c: CirrusState, value: u8)
    requires
        !c.unlocked(),
    ensures
        c.seq_index % 32 > idx::SR_LOCK ==> c.sequencer_value() == OPEN_BUS_BYTE
            && c.sequencer_written(value) == c,
        c.gr_index % 64 > 8 ==> c.graphics_value() == OPEN_BUS_BYTE && c.graphics_written(value)
            == c,
        c.crtc_index % 64 > idx::CRTC_LAST_STANDARD && c.crtc_index % 64 != idx::CRTC_ID
            ==> c.crtc_value() == OPEN_BUS_BYTE && c.crtc_written(value) == c,
{
}

/// The unlock code unlocks, and any other value written to the lock
/// register locks.
pub proof fn lock_register_has_two_states(c: CirrusState, value: u8)
    requires
        sized(c),
        c.seq_index % 32 == idx::SR_LOCK,
    ensures
        c.sequencer_written(value).unlocked() == (value & idx::SR_LOCK_UNLOCK_MASK
            == idx::SR_LOCK_UNLOCKED),
        c.sequencer_written(idx::SR_LOCK_UNLOCKED).unlocked(),
{
    assert(0x12u8 & 0x17u8 == 0x12u8) by (bit_vector);
}

/// The chip-ID register is read-only and answers whether or not the
/// extensions are unlocked.
pub proof fn chip_id_is_read_only(c: CirrusState, value: u8)
    requires
        c.crtc_index % 64 == idx::CRTC_ID,
    ensures
        c.crtc_value() == c.revision.id(),
        c.crtc_written(value) == c,
{
}

/// Three DAC writes at an index set that palette entry, six bits per gun,
/// leave every other entry alone, move on to the next index, and three DAC
/// reads there return the same levels.
pub proof fn palette_entry_reads_back(c: CirrusState, index: u8, r: u8, g: u8, b: u8, other: int)
    requires
        sized(c),
        !c.cursor_colours(),
        0 <= other < 256,
        other != index,
    ensures
        ({
            let w = c.reg_written(port::DAC_WRITE_INDEX, index).reg_written(
                port::DAC_DATA,
                r,
            ).reg_written(port::DAC_DATA, g).reg_written(port::DAC_DATA, b);
            let r0 = w.reg_written(port::DAC_READ_INDEX, index).reg_read(port::DAC_DATA);
            let r1 = r0.1.reg_read(port::DAC_DATA);
            let r2 = r1.1.reg_read(port::DAC_DATA);
            &&& w.palette[index as int] == (Rgb { r: r % 64, g: g % 64, b: b % 64 })
            &&& w.palette[other] == c.palette[other]
            &&& w.cursor_palette == c.cursor_palette
            &&& w.dac_write_index == index.wrapping_add(1)
            &&& r0.0 == r % 64
            &&& r1.0 == g % 64
            &&& r2.0 == b % 64
        }),
{
}

/// With the cursor colours selected, DAC data writes never reach the screen
/// palette.
pub proof fn cursor_colours_leave_the_palette_alone(c: CirrusState, value: u8)
    requires
        c.cursor_colours(),
    ensures
        c.reg_written(port::DAC_DATA, value).palette == c.palette,
{
}

/// Full and zero six-bit intensity are full and zero eight-bit intensity,
/// and the alpha byte is always opaque.
pub proof fn palette_expansion_keeps_the_extremes(e: Rgb)
    ensures
        e.argb() >= 0xFF00_0000,
        (Rgb { r: 63, g: 63, b: 63 }).argb() == 0xFFFF_FFFF,
        (Rgb { r: 0, g: 0, b: 0 }).argb() == 0xFF00_0000,
{
}

/// Every byte that scanning out a decoded mode reads lies inside VRAM, and
/// rows do not overlap.
pub proof fn decoded_mode_fits_vram(c: CirrusState, y: int, x: int)
    requires
        c.decoded() is Some,
        0 <= y < c.decoded()->0.height,
        0 <= x < c.decoded()->0.width * c.decoded()->0.depth.size(),
    ensures
        ({
            let m = c.decoded()->0;
            &&& 0 <= m.start_offset + y * m.stride_bytes + x < c.vram.len()
            &&& x < m.stride_bytes
        }),
{
    let m = c.decoded()->0;
    assert(0 <= y * m.stride_bytes <= (m.height - 1) * m.stride_bytes) by (nonlinear_arith)
        requires
            0 <= y < m.height,
    ;
}

/// Out of reset nothing is displayed, nothing is pending and no interrupt
/// can be latched.
pub proof fn reset_is_quiet(revision: ChipRevision, vram: Seq<u8>)
    ensures
        ({
            let c = crate::cirrus::reset_state(revision, vram);
            &&& c.decoded() is None
            &&& !c.unlocked()
            &&& !c.interrupting()
            &&& !c.vertical_interrupt_armed()
        }),
{
    assert(0u8 & (0x20u8 | 0x10u8) != 0x10u8 && 0u8 & 0x03u8 != 0x03u8) by (bit_vector);
}

/// Acknowledging the interrupt (CR11 written with bit 4 low) clears it, and
/// it stays masked until bit 4 is written back high.
pub proof fn retrace_acknowledge_masks_until_rearmed(c: CirrusState, value: u8)
    requires
        sized(c),
        c.crtc_index % 64 == idx::CRTC_END_VERTICAL_RETRACE,
        value & crtc11::CLEAR_VERTICAL_INTERRUPT == 0,
    ensures
        !c.crtc_written(value).vblank_pending,
        !c.crtc_written(value).vertical_interrupt_armed(),
{
    assert(value & 0x10 == 0 ==> value & (0x20u8 | 0x10u8) != 0x10) by (bit_vector);
}

/// Four consecutive pixel-mask reads while unlocked make the next
/// pixel-mask write reach the hidden DAC, and leave the pixel mask alone.
pub proof fn four_mask_reads_reach_the_hidden_dac(c: CirrusState, value: u8)
    requires
        c.unlocked(),
        c.hidden_dac_arm == 0,
    ensures
        ({
            let a = c.reg_read(port::PEL_MASK).1.reg_read(port::PEL_MASK).1.reg_read(
                port::PEL_MASK,
            ).1.reg_read(port::PEL_MASK).1;
            &&& a.reg_written(port::PEL_MASK, value).hidden_dac == value
            &&& a.reg_written(port::PEL_MASK, value).pel_mask == c.pel_mask
            &&& a.reg_read(port::PEL_MASK).0 == c.hidden_dac
        }),
{
}

/// Any access to another port disarms the hidden DAC.
pub proof fn other_ports_disarm_the_hidden_dac(c: CirrusState, offset: u32, value: u8)
    requires
        offset != port::PEL_MASK,
    ensures
        c.reg_read(offset).1.hidden_dac_arm == 0,
        c.reg_written(offset, value).hidden_dac_arm == 0,
{
}

/// Reading either input-status port resynchronises the attribute
/// controller: the next write to its shared port loads the index.
pub proof fn status_read_resynchronises_attributes(c: CirrusState, index: u8, value: u8)
    requires
        sized(c),
    ensures
        ({
            let s = c.reg_read(port::INPUT_STATUS_1_COLOR).1;
            let w = s.reg_written(port::AC_INDEX_DATA, index).reg_written(
                port::AC_INDEX_DATA,
                value,
            );
            &&& s == c.reg_read(port::INPUT_STATUS_1_MONO).1
            &&& w.ar[(index % 64 % 32) as int] == value
            &&& w.reg_read(port::AC_DATA_READ).0 == value
        }),
{
}

/// Storing a counter and reading it back gives it modulo its 21 bits.
pub proof fn blit_address_reads_back(gr: Seq<u8>, low: u8, addr: int)
    requires
        gr.len() == 64,
        low < 62,
    ensures
        bitblt::blit_addr(bitblt::with_blit_addr(gr, low, addr), low) == addr % 0x20_0000,
{
}

/// After a transfer the destination counter stands a whole rectangle
/// further on, whatever the source was.
pub proof fn destination_counter_moves_on(gr: Seq<u8>, vram: Seq<u8>, system: Option<Seq<u8>>)
    requires
        gr.len() == 64,
    ensures
        ({
            let b = bitblt::blit_setup(gr, vram.len() as int);
            bitblt::blit_addr(
                bitblt::blit_result(gr, vram, system).0,
                idx::GR_BLIT_DST_ADDR_LO,
            ) == bitblt::counter_end(b, b.dst_start, b.dst_pitch) % 0x20_0000
        }),
{
    let b = bitblt::blit_setup(gr, vram.len() as int);
    blit_address_reads_back(
        gr,
        idx::GR_BLIT_DST_ADDR_LO,
        bitblt::counter_end(b, b.dst_start, b.dst_pitch),
    );
}

/// Whether `at` is one of the first `n` destination bytes of row `y`.
pub open spec fn row_covers(b: BlitSetup, y: int, n: nat, at: int) -> bool {
    exists|x: int|
        0 <= x < n && #[trigger] b.along(b.line(b.dst_start, b.dst_pitch, y), x) == at
}

/// Whether `at` is a destination byte of one of the first `n` rows.
pub open spec fn rows_cover(b: BlitSetup, n: nat, at: int) -> bool {
    exists|y: int| 0 <= y < n && #[trigger] row_covers(b, y, b.width as nat, at)
}

pub(crate) proof fn lemma_bytes_confined(
    gr: Seq<u8>,
    b: BlitSetup,
    system: Option<Seq<u8>>,
    s: BlitState,
    y: int,
    n: nat,
    at: int,
)
    requires
        0 <= at < s.vram.len(),
        !row_covers(b, y, n, at),
    ensures
        bitblt::after_bytes(gr, b, system, s, y, n).vram.len() == s.vram.len(),
        bitblt::after_bytes(gr, b, system, s, y, n).vram[at] == s.vram[at],
    decreases n,
{
    if n > 0 {
        let m = (n - 1) as nat;
        assert(!row_covers(b, y, m, at)) by {
            if row_covers(b, y, m, at) {
                let x = choose|x: int|
                    0 <= x < m && #[trigger] b.along(b.line(b.dst_start, b.dst_pitch, y), x) == at;
                assert(0 <= x < n && b.along(b.line(b.dst_start, b.dst_pitch, y), x) == at);
            }
        }
        lemma_bytes_confined(gr, b, system, s, y, m, at);
        assert(b.along(b.line(b.dst_start, b.dst_pitch, y), m as int) != at);
    }
}

pub(crate) proof fn lemma_bytes_len(
    gr: Seq<u8>,
    b: BlitSetup,
    system: Option<Seq<u8>>,
    s: BlitState,
    y: int,
    n: nat,
)
    ensures
        bitblt::after_bytes(gr, b, system, s, y, n).vram.len() == s.vram.len(),
    decreases n,
{
    if n > 0 {
        lemma_bytes_len(gr, b, system, s, y, (n - 1) as nat);
    }
}

pub(crate) proof fn lemma_rows_confined(
    gr: Seq<u8>,
    b: BlitSetup,
    system: Option<Seq<u8>>,
    s: BlitState,
    n: nat,
    at: int,
)
    ensures
        bitblt::after_rows(gr, b, system, s, n).vram.len() == s.vram.len(),
        0 <= at < s.vram.len() && !rows_cover(b, n, at) ==> bitblt::after_rows(
            gr,
            b,
            system,
            s,
            n,
        ).vram[at] == s.vram[at],
    decreases n,
{
    if n > 0 {
        let m = (n - 1) as nat;
        lemma_rows_confined(gr, b, system, s, m, at);
        let t = bitblt::after_rows(gr, b, system, s, m);
        lemma_bytes_len(gr, b, system, t, m as int, b.width as nat);
        if 0 <= at < s.vram.len() && !rows_cover(b, n, at) {
            assert(!rows_cover(b, m, at)) by {
                if rows_cover(b, m, at) {
                    let y = choose|y: int|
                        0 <= y < m && #[trigger] row_covers(b, y, b.width as nat, at);
                    assert(0 <= y < n && row_covers(b, y, b.width as nat, at));
                }
            }
            assert(!row_covers(b, m as int, b.width as nat, at));
            lemma_bytes_confined(gr, b, system, t, m as int, b.width as nat, at);
        }
    }
}

/// A transfer never changes the size of VRAM, and never touches a byte
/// outside its destination rectangle.
pub proof fn blit_stays_in_its_rectangle(
    gr: Seq<u8>,
    vram: Seq<u8>,
    system: Option<Seq<u8>>,
    at: int,
)
    ensures
        ({
            let b = bitblt::blit_setup(gr, vram.len() as int);
            let after = bitblt::blit_result(gr, vram, system).1;
            &&& after.len() == vram.len()
            &&& 0 <= at < vram.len() && !rows_cover(b, b.height as nat, at) ==> after[at]
                == vram[at]
        }),
{
    let b = bitblt::blit_setup(gr, vram.len() as int);
    lemma_rows_confined(gr, b, system, bitblt::blit_start(b, vram), b.height as nat, at);
}

/// The raster operation that copies the source.
pub open spec fn copies(b: BlitSetup) -> bool {
    b.rop == 0x0D && !b.transparent
}

/// A solid fill paints a row with the foreground colour, component by
/// component, in either direction.
pub proof fn solid_fill_paints_the_row(
    gr: Seq<u8>,
    b: BlitSetup,
    s: BlitState,
    y: int,
    n: nat,
    x: int,
)
    requires
        b.solid_fill,
        copies(b),
        0 <= x < n,
        0 <= b.along(b.line(b.dst_start, b.dst_pitch, y), x) < s.vram.len(),
    ensures
        bitblt::after_bytes(gr, b, None, s, y, n).vram[b.along(
            b.line(b.dst_start, b.dst_pitch, y),
            x,
        )] == bitblt::fg_component(gr, x % b.pixel_bytes as int),
    decreases n,
{
    let m = (n - 1) as nat;
    lemma_bytes_len(gr, b, None, s, y, m);
    if x < m {
        solid_fill_paints_the_row(gr, b, s, y, m, x);
    }
}

/// A plain ascending copy reproduces its source row, when source and
/// destination lie inside VRAM and do not overlap.
pub proof fn plain_copy_reproduces_the_source(
    gr: Seq<u8>,
    b: BlitSetup,
    s: BlitState,
    y: int,
    n: nat,
    x: int,
)
    requires
        copies(b),
        !b.color_expand,
        !b.pattern,
        !b.solid_fill,
        !b.backwards,
        0 <= x < n,
        0 <= b.line(b.src_start, b.src_pitch, y),
        0 <= b.line(b.dst_start, b.dst_pitch, y),
        b.line(b.src_start, b.src_pitch, y) + n <= s.vram.len(),
        b.line(b.dst_start, b.dst_pitch, y) + n <= s.vram.len(),
        b.line(b.src_start, b.src_pitch, y) + n <= b.line(b.dst_start, b.dst_pitch, y) || b.line(
            b.dst_start,
            b.dst_pitch,
            y,
        ) + n <= b.line(b.src_start, b.src_pitch, y),
    ensures
        bitblt::after_bytes(gr, b, None, s, y, n).vram[b.line(b.dst_start, b.dst_pitch, y) + x]
            == s.vram[b.line(b.src_start, b.src_pitch, y) + x],
    decreases n,
{
    let m = (n - 1) as nat;
    lemma_bytes_len(gr, b, None, s, y, m);
    if x < m {
        plain_copy_reproduces_the_source(gr, b, s, y, m, x);
    } else {
        let src = b.line(b.src_start, b.src_pitch, y) + x;
        assert(!row_covers(b, y, m, src));
        lemma_bytes_confined(gr, b, None, s, y, m, src);
    }
}

/// Rows that do not cover a byte leave it as an earlier row left it.
pub(crate) proof fn lemma_later_rows_keep(
    gr: Seq<u8>,
    b: BlitSetup,
    system: Option<Seq<u8>>,
    s: BlitState,
    done: nat,
    n: nat,
    at: int,
)
    requires
        done <= n,
        0 <= at < s.vram.len(),
        forall|y: int| done <= y < n ==> !#[trigger] row_covers(b, y, b.width as nat, at),
    ensures
        bitblt::after_rows(gr, b, system, s, n).vram.len() == s.vram.len(),
        bitblt::after_rows(gr, b, system, s, n).vram[at] == bitblt::after_rows(
            gr,
            b,
            system,
            s,
            done,
        ).vram[at],
    decreases n,
{
    lemma_rows_confined(gr, b, system, s, n, at);
    if done < n {
        let m = (n - 1) as nat;
        lemma_later_rows_keep(gr, b, system, s, done, m, at);
        assert(!row_covers(b, m as int, b.width as nat, at));
        lemma_bytes_confined(
            gr,
            b,
            system,
            bitblt::after_rows(gr, b, system, s, m),
            m as int,
            b.width as nat,
            at,
        );
    }
}

/// A solid fill leaves the foreground colour in every byte of its
/// rectangle, component by component, in either direction, as long as no
/// later row overlaps that byte.
pub proof fn solid_fill_paints_the_rectangle(gr: Seq<u8>, vram: Seq<u8>, y: int, x: int)
    requires
        ({
            let b = bitblt::blit_setup(gr, vram.len() as int);
            let at = b.along(b.line(b.dst_start, b.dst_pitch, y), x);
            &&& b.solid_fill
            &&& copies(b)
            &&& 0 <= y < b.height
            &&& 0 <= x < b.width
            &&& 0 <= at < vram.len()
            &&& forall|later: int|
                y < later < b.height ==> !#[trigger] row_covers(b, later, b.width as nat, at)
        }),
    ensures
        ({
            let b = bitblt::blit_setup(gr, vram.len() as int);
            bitblt::blit_result(gr, vram, None).1[b.along(
                b.line(b.dst_start, b.dst_pitch, y),
                x,
            )] == bitblt::fg_component(gr, x % b.pixel_bytes as int)
        }),
{
    let b = bitblt::blit_setup(gr, vram.len() as int);
    let at = b.along(b.line(b.dst_start, b.dst_pitch, y), x);
    let s = bitblt::blit_start(b, vram);
    let before = bitblt::after_rows(gr, b, None, s, y as nat);
    lemma_rows_confined(gr, b, None, s, y as nat, at);
    solid_fill_paints_the_row(gr, b, before, y, b.width as nat, x);
    lemma_later_rows_keep(gr, b, None, s, (y + 1) as nat, b.height as nat, at);
}

/// A plain ascending copy leaves in every byte of its rectangle what the
/// matching source byte held before the transfer, as long as both rows lie
/// inside VRAM, no row before this one overwrote the source byte, and none
/// after it overlaps the destination byte.
pub proof fn plain_copy_reproduces_the_rectangle(gr: Seq<u8>, vram: Seq<u8>, y: int, x: int)
    requires
        ({
            let b = bitblt::blit_setup(gr, vram.len() as int);
            let src = b.line(b.src_start, b.src_pitch, y);
            let dst = b.line(b.dst_start, b.dst_pitch, y);
            &&& copies(b)
            &&& !b.color_expand
            &&& !b.pattern
            &&& !b.solid_fill
            &&& !b.backwards
            &&& 0 <= y < b.height
            &&& 0 <= x < b.width
            &&& 0 <= src
            &&& 0 <= dst
            &&& src + b.width <= vram.len()
            &&& dst + b.width <= vram.len()
            &&& src + b.width <= dst || dst + b.width <= src
            &&& !rows_cover(b, y as nat, src + x)
            &&& forall|later: int|
                y < later < b.height ==> !#[trigger] row_covers(b, later, b.width as nat, dst + x)
        }),
    ensures
        ({
            let b = bitblt::blit_setup(gr, vram.len() as int);
            bitblt::blit_result(gr, vram, None).1[b.line(b.dst_start, b.dst_pitch, y) + x]
                == vram[b.line(b.src_start, b.src_pitch, y) + x]
        }),
{
    let b = bitblt::blit_setup(gr, vram.len() as int);
    let src = b.line(b.src_start, b.src_pitch, y);
    let dst = b.line(b.dst_start, b.dst_pitch, y);
    let s = bitblt::blit_start(b, vram);
    let before = bitblt::after_rows(gr, b, None, s, y as nat);
    lemma_rows_confined(gr, b, None, s, y as nat, src + x);
    plain_copy_reproduces_the_source(gr, b, before, y, b.width as nat, x);
    lemma_later_rows_keep(gr, b, None, s, (y + 1) as nat, b.height as nat, dst + x);
}

/// With no host-fed transfer waiting, a byte written through the aperture
/// reads back, every other byte of VRAM stays, and a write past the end of
/// VRAM is discarded.
pub proof fn aperture_byte_reads_back(c: CirrusState, offset: usize, value: u8, other: int)
    requires
        c.system_blit is None,
        0 <= other < c.vram.len(),
    ensures
        offset < c.vram.len() ==> c.aperture_written(offset, value).vram[offset as int] == value,
        other != offset ==> c.aperture_written(offset, value).vram[other] == c.vram[other],
        offset >= c.vram.len() ==> c.aperture_written(offset, value) == c,
        c.aperture_written(offset, value).vram.len() == c.vram.len(),
{
}

/// The chip after a run of bytes is pushed through the aperture.
pub open spec fn pushed(c: CirrusState, bytes: Seq<u8>) -> CirrusState
    decreases bytes.len(),
{
    if bytes.len() == 0 {
        c
    } else {
        pushed(c, bytes.drop_last()).aperture_written(0, bytes.last())
    }
}

/// A system-source transfer only collects until its last byte: fewer bytes
/// than it needs leave VRAM and the registers alone and the chip busy, and
/// the byte that completes the count runs the blit on what was kept, which
/// is the first bytes up to the capacity.
pub proof fn system_source_waits_for_every_byte(c: CirrusState, need: usize, bytes: Seq<u8>)
    requires
        c.system_blit == Some(Feed { remaining: need, data: Seq::empty() }),
        0 < bytes.len() <= need,
    ensures
        ({
            let kept = bytes.take(
                if bytes.len() < SYSTEM_BLIT_CAPACITY {
                    bytes.len() as int
                } else {
                    SYSTEM_BLIT_CAPACITY as int
                },
            );
            if bytes.len() < need {
                pushed(c, bytes) == (CirrusState {
                    system_blit: Some(
                        Feed { remaining: (need - bytes.len()) as usize, data: kept },
                    ),
                    ..c
                })
            } else {
                pushed(c, bytes) == (CirrusState { system_blit: None, ..c }).blitted(Some(kept))
            }
        }),
    decreases bytes.len(),
{
    let before = bytes.drop_last();
    if before.len() > 0 {
        system_source_waits_for_every_byte(c, need, before);
        if bytes.len() <= SYSTEM_BLIT_CAPACITY {
            assert(before.take(before.len() as int).push(bytes.last()) =~= bytes.take(
                bytes.len() as int,
            ));
        } else {
            assert(before.take(SYSTEM_BLIT_CAPACITY as int) =~= bytes.take(
                SYSTEM_BLIT_CAPACITY as int,
            ));
        }
    } else {
        assert(pushed(c, before) == c);
        assert(Seq::<u8>::empty().push(bytes.last()) =~= bytes.take(1));
    }
}

/// A reset write abandons a pending transfer without touching VRAM, and the
/// busy bits read clear.
pub proof fn reset_abandons_a_transfer(c: CirrusState, value: u8)
    requires
        sized(c),
        c.unlocked(),
        c.gr_index % 64 == idx::GR_BLIT_START_STATUS,
        value & blit_status::RESET != 0,
    ensures
        c.graphics_written(value).system_blit is None,
        c.graphics_written(value).vram == c.vram,
        c.graphics_written(value).graphics_value() & blit_status::BUSY_MASK == 0,
{
    assert((value & !0x09) & !0x09 & 0x09 == 0) by (bit_vector);
}

} // verus!
