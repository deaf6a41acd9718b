//! What a driver reads back through the VGA ports, told by port and register
//! number.

use crate::cirrus::laws;
use crate::cirrus::{CirrusState, Gun, Rgb};
use vstd::prelude::*;

verus! {

/// Whether the chip's own registers are open: the lock register holds the
/// key.
pub open spec fn open_to_driver(c: CirrusState) -> bool {
    c.sr[6] == 0x12
}

/// The chip after a byte is written to a port.
#[verifier::opaque]
pub open spec fn put(c: CirrusState, port: u32, value: u8) -> CirrusState {
    c.reg_written(port, value)
}

/// The byte that a port reads.
#[verifier::opaque]
pub open spec fn get(c: CirrusState, port: u32) -> u8 {
    c.reg_read(port).0
}

/// The chip after a register of the sequencer is written.
pub open spec fn sequencer_set(c: CirrusState, index: u8, value: u8) -> CirrusState {
    put(put(c, 0x3C4, index), 0x3C5, value)
}

/// The chip after a register of the graphics controller is written.
pub open spec fn graphics_set(c: CirrusState, index: u8, value: u8) -> CirrusState {
    put(put(c, 0x3CE, index), 0x3CF, value)
}

/// The chip after a register of the display timing is written.
pub open spec fn crtc_set(c: CirrusState, index: u8, value: u8) -> CirrusState {
    put(put(c, 0x3D4, index), 0x3D5, value)
}

/// A sequencer register holds what is written to it and no other changes.
/// The ones past the lock register take writes and answer only while the
/// chip is open; until then they float.
pub proof fn sequencer_registers_read_back(c: CirrusState, index: u8, value: u8)
    requires
        laws::sized(c),
        index < 32,
        index != 6,
    ensures
        ({
            let w = sequencer_set(c, index, value);
            let here = index < 6 || open_to_driver(c);
            &&& w == (CirrusState { sr: w.sr, seq_index: index, hidden_dac_arm: 0, ..c })
            &&& get(w, 0x3C4) == index
            &&& get(w, 0x3C5) == (if here {
                value
            } else {
                0xFF
            })
            &&& w.sr == (if here {
                c.sr.update(index as int, value)
            } else {
                c.sr
            })
        }),
{
    let a = CirrusState { seq_index: index, hidden_dac_arm: 0, ..c };
    let w = a.sequencer_written(value);
    lemma_sequencer_ports(c, index);
    lemma_sequencer_ports(a, value);
    lemma_sequencer_ports(w, value);
}

/// The lock register opens the chip for the key and closes it for anything
/// else; the bits the key leaves out are ignored.
pub proof fn the_key_opens_the_chip(c: CirrusState, value: u8)
    requires
        laws::sized(c),
    ensures
        ({
            let w = sequencer_set(c, 6, value);
            &&& open_to_driver(w) <==> value & 0x17 == 0x12
            &&& get(w, 0x3C5) == (if value & 0x17 == 0x12 {
                0x12u8
            } else {
                0x0F
            })
            &&& forall|i: int| 0 <= i < 32 && i != 6 ==> #[trigger] w.sr[i] == c.sr[i]
        }),
{
    let a = CirrusState { seq_index: 6, hidden_dac_arm: 0, ..c };
    let w = a.sequencer_written(value);
    lemma_sequencer_ports(c, 6);
    lemma_sequencer_ports(a, value);
    lemma_sequencer_ports(w, value);
}

/// A graphics-controller register holds what is written to it and no other
/// changes. The ones past 8 take writes and answer only while the chip is
/// open.
pub proof fn graphics_registers_read_back(c: CirrusState, index: u8, value: u8)
    requires
        laws::sized(c),
        index < 64,
        index != 0x31,
    ensures
        ({
            let w = graphics_set(c, index, value);
            let here = index <= 8 || open_to_driver(c);
            &&& w == (CirrusState { gr: w.gr, gr_index: index, hidden_dac_arm: 0, ..c })
            &&& get(w, 0x3CE) == index
            &&& get(w, 0x3CF) == (if here {
                value
            } else {
                0xFF
            })
            &&& w.gr == (if here {
                c.gr.update(index as int, value)
            } else {
                c.gr
            })
        }),
{
    let a = CirrusState { gr_index: index, hidden_dac_arm: 0, ..c };
    lemma_graphics_index(c, index);
    lemma_graphics_latch(a, value);
    let w = put(a, 0x3CF, value);
    lemma_graphics_index(w, value);
    lemma_graphics_shown(w);
}

/// The transfer register: bit 2 abandons a transfer that waits for data and
/// touches no pixel; bit 1 without it starts one, which waits for data when
/// it comes from the host (bit 2 of the mode register) and is done at once
/// otherwise. While one waits, bits 0 and 3 read set, else clear.
pub proof fn the_transfer_register_starts_and_abandons(c: CirrusState, value: u8)
    requires
        laws::sized(c),
        open_to_driver(c),
    ensures
        ({
            let w = graphics_set(c, 0x31, value);
            let busy = get(w, 0x3CF) & 0x09;
            &&& value & 0x04 != 0 ==> w.system_blit is None && w.vram == c.vram
            &&& value & 0x04 == 0 && value & 0x02 == 0 ==> w.system_blit == c.system_blit && w.vram
                == c.vram
            &&& value & 0x04 == 0 && value & 0x02 != 0 && c.gr[0x30] & 0x04 != 0
                ==> w.system_blit is Some && w.vram == c.vram && w.system_blit->0.data.len() == 0
            &&& value & 0x04 == 0 && value & 0x02 != 0 && c.gr[0x30] & 0x04 == 0 ==> w.system_blit
                == c.system_blit
            &&& busy == (if w.system_blit is Some {
                0x09
            } else {
                0u8
            })
        }),
{
    let a = CirrusState { gr_index: 0x31, hidden_dac_arm: 0, ..c };
    let w = a.graphics_written(value);
    lemma_graphics_ports(c, 0x31);
    lemma_graphics_ports(a, value);
    lemma_graphics_ports(w, value);
    lemma_busy(w.gr[0x31]);
}

proof fn lemma_busy(x: u8)
    ensures
        (x & !0x09u8) & 0x09 == 0,
        ((x & !0x09u8) | 0x09) & 0x09 == 0x09,
{
    assert((x & !0x09u8) & 0x09 == 0 && ((x & !0x09u8) | 0x09) & 0x09 == 0x09) by (bit_vector);
}

/// A display-timing register holds what is written to it and no other
/// changes, through either pair of ports. Bit 7 of register `$11` protects
/// the first eight, all but bit 4 of the seventh; the ones past `$18` answer
/// only while the chip is open; register `$27` names the chip.
pub proof fn timing_registers_read_back(c: CirrusState, index: u8, value: u8)
    requires
        laws::sized(c),
        index < 64,
    ensures
        ({
            let w = crtc_set(c, index, value);
            let here = index <= 0x18 || open_to_driver(c);
            let kept = c.crtc[0x11] & 0x80 != 0 && index < 8;
            &&& w == put(put(c, 0x3B4, index), 0x3B5, value)
            &&& get(w, 0x3D5) == get(w, 0x3B5)
            &&& get(w, 0x3D4) == index && get(w, 0x3B4) == index
            &&& index != 0x27 && here && !kept ==> get(w, 0x3D5) == value && w.crtc
                == c.crtc.update(index as int, value)
            &&& index != 0x27 && !here ==> get(w, 0x3D5) == 0xFF && w.crtc == c.crtc
            &&& kept && index < 7 ==> w.crtc == c.crtc
            &&& kept && index == 7 ==> w.crtc[7] & 0x10 == value & 0x10 && w.crtc[7] & 0xEF
                == c.crtc[7] & 0xEF && forall|i: int|
                0 <= i < 64 && i != 7 ==> #[trigger] w.crtc[i] == c.crtc[i]
            &&& index == 0x27 ==> w.crtc == c.crtc && get(w, 0x3D5) == c.revision.id()
            &&& w == (CirrusState {
                crtc: w.crtc,
                crtc_index: index,
                hidden_dac_arm: 0,
                vblank_pending: c.vblank_pending && !(index == 0x11 && value & 0x10 == 0),
                ..c
            })
        }),
{
    lemma_kept(c.crtc[7], value);
    let a = CirrusState { crtc_index: index, hidden_dac_arm: 0, ..c };
    let w = a.crtc_written(value);
    lemma_timing_ports(c, index);
    lemma_timing_ports(a, value);
    lemma_timing_ports(w, value);
}

proof fn lemma_kept(x: u8, value: u8)
    ensures
        ((x & !0x10u8) | (value & 0x10)) & 0x10 == value & 0x10,
        ((x & !0x10u8) | (value & 0x10)) & 0xEF == x & 0xEF,
{
    assert(((x & !0x10u8) | (value & 0x10)) & 0x10 == value & 0x10 && ((x & !0x10u8) | (value
        & 0x10)) & 0xEF == x & 0xEF) by (bit_vector);
}

/// An attribute register is written through one port, number first, once a
/// read of the status port has put it in step; it reads back through the
/// next port and no other register changes.
pub proof fn attribute_registers_read_back(c: CirrusState, index: u8, value: u8)
    requires
        laws::sized(c),
        index < 32,
    ensures
        ({
            let w = put(put(c.reg_read(0x3DA).1, 0x3C0, index), 0x3C0, value);
            &&& w == (CirrusState {
                ar: c.ar.update(index as int, value),
                ar_index: index,
                ar_next_is_data: false,
                hidden_dac_arm: 0,
                ..c
            })
            &&& get(w, 0x3C1) == value
            &&& get(w, 0x3C0) == index
            &&& c.reg_read(0x3DA) == c.reg_read(0x3BA)
            &&& c.reg_read(0x3DA).0 == 0
        }),
{
    let a = CirrusState { ar_next_is_data: false, hidden_dac_arm: 0, ..c };
    assert(c.reg_read(0x3DA) == (0u8, a) && c.reg_read(0x3BA) == (0u8, a));
    let b = CirrusState { ar_index: index, ar_next_is_data: true, ..a };
    lemma_attribute_ports(a, index);
    assert(a.attribute_written(index) == b);
    lemma_attribute_ports(b, value);
    lemma_attribute_ports(b.attribute_written(value), value);
}

proof fn lemma_sequencer_ports(c: CirrusState, value: u8)
    ensures
        put(c, 0x3C4, value) == (CirrusState { seq_index: value, hidden_dac_arm: 0, ..c }),
        put(c, 0x3C5, value) == (CirrusState { hidden_dac_arm: 0, ..c }).sequencer_written(value),
        get(c, 0x3C4) == c.seq_index,
        get(c, 0x3C5) == c.sequencer_value(),
{
    reveal(put);
    reveal(get);
}

proof fn lemma_graphics_ports(c: CirrusState, value: u8)
    ensures
        put(c, 0x3CE, value) == (CirrusState { gr_index: value, hidden_dac_arm: 0, ..c }),
        put(c, 0x3CF, value) == (CirrusState { hidden_dac_arm: 0, ..c }).graphics_written(value),
        get(c, 0x3CE) == c.gr_index,
        get(c, 0x3CF) == c.graphics_value(),
{
    reveal(put);
    reveal(get);
}

proof fn lemma_graphics_index(c: CirrusState, value: u8)
    ensures
        put(c, 0x3CE, value) == (CirrusState { gr_index: value, hidden_dac_arm: 0, ..c }),
        get(c, 0x3CE) == c.gr_index,
{
    lemma_graphics_ports(c, value);
}

proof fn lemma_graphics_latch(c: CirrusState, value: u8)
    requires
        c.gr_index < 64,
        c.gr_index != 0x31,
        c.hidden_dac_arm == 0,
    ensures
        put(c, 0x3CF, value) == (if c.gr_index <= 8 || c.sr[6] == 0x12 {
            CirrusState { gr: c.gr.update(c.gr_index as int, value), ..c }
        } else {
            c
        }),
{
    lemma_graphics_ports(c, value);
}

proof fn lemma_graphics_shown(c: CirrusState)
    requires
        c.gr_index < 64,
        c.gr_index != 0x31,
    ensures
        get(c, 0x3CF) == (if c.gr_index <= 8 || c.sr[6] == 0x12 {
            c.gr[c.gr_index as int]
        } else {
            0xFF
        }),
{
    lemma_graphics_ports(c, 0);
}

proof fn lemma_timing_ports(c: CirrusState, value: u8)
    ensures
        put(c, 0x3D4, value) == (CirrusState { crtc_index: value, hidden_dac_arm: 0, ..c }),
        put(c, 0x3B4, value) == put(c, 0x3D4, value),
        put(c, 0x3D5, value) == (CirrusState { hidden_dac_arm: 0, ..c }).crtc_written(value),
        put(c, 0x3B5, value) == put(c, 0x3D5, value),
        get(c, 0x3D4) == c.crtc_index,
        get(c, 0x3B4) == c.crtc_index,
        get(c, 0x3D5) == c.crtc_value(),
        get(c, 0x3B5) == c.crtc_value(),
{
    reveal(put);
    reveal(get);
}

proof fn lemma_attribute_ports(c: CirrusState, value: u8)
    ensures
        put(c, 0x3C0, value) == (CirrusState { hidden_dac_arm: 0, ..c }).attribute_written(value),
        get(c, 0x3C1) == c.ar[(c.ar_index % 32) as int],
        get(c, 0x3C0) == c.ar_index,
{
    reveal(put);
    reveal(get);
}

/// The output register is written at one port and read at another; the pixel
/// mask is written and read at its own, while the hidden register behind it
/// is not reached.
pub proof fn single_registers_read_back(c: CirrusState, value: u8)
    ensures
        c.reg_written(0x3C2, value).reg_read(0x3CC).0 == value,
        c.reg_written(0x3C2, value) == (CirrusState { misc_output: value, hidden_dac_arm: 0, ..c
        }),
        c.hidden_dac_arm < 4 ==> c.reg_written(0x3C6, value) == (CirrusState {
            pel_mask: value,
            hidden_dac_arm: 0,
            ..c
        }),
        c.reg_written(0x3C6, value).hidden_dac_arm == 0,
        c.hidden_dac_arm < 4 ==> c.reg_written(0x3C6, value).reg_read(0x3C6).0 == value,
{
}

/// The chip after bytes are written to the colour data port.
pub open spec fn colours_written(c: CirrusState, bytes: Seq<u8>) -> CirrusState
    decreases bytes.len(),
{
    if bytes.len() == 0 {
        c
    } else {
        colours_written(c, bytes.drop_last()).reg_written(0x3C9, bytes.last())
    }
}

/// Which gun of an entry a byte sets: red, green, blue in turn.
pub open spec fn gun_of(i: int) -> Gun {
    if i % 3 == 0 {
        Gun::Red
    } else if i % 3 == 1 {
        Gun::Green
    } else {
        Gun::Blue
    }
}

/// A run of bytes from entry `first` on fills the colour table entry by
/// entry, red then green then blue, six bits of each; an entry the run does
/// not reach stays as it was.
pub proof fn a_run_of_colours_fills_the_table(c: CirrusState, first: u8, bytes: Seq<u8>, e: int)
    requires
        laws::sized(c),
        !c.cursor_colours(),
        first + bytes.len() / 3 <= 255,
        0 <= e < 256,
    ensures
        ({
            let w = colours_written(c.reg_written(0x3C8, first), bytes);
            let at = 3 * (e - first);
            &&& 0 <= at < bytes.len() ==> w.palette[e].r == bytes[at] % 64
            &&& 0 <= at && at + 1 < bytes.len() ==> w.palette[e].g == bytes[at + 1] % 64
            &&& 0 <= at && at + 2 < bytes.len() ==> w.palette[e].b == bytes[at + 2] % 64
            &&& !(0 <= at < bytes.len()) ==> w.palette[e] == c.palette[e]
            &&& w.cursor_palette == c.cursor_palette
        }),
{
    lemma_colours(c, first, bytes, e);
}

proof fn lemma_colours(c: CirrusState, first: u8, bytes: Seq<u8>, e: int)
    requires
        laws::sized(c),
        !c.cursor_colours(),
        first + bytes.len() / 3 <= 255,
        0 <= e < 256,
    ensures
        ({
            let w = colours_written(c.reg_written(0x3C8, first), bytes);
            let at = 3 * (e - first);
            &&& 0 <= at < bytes.len() ==> w.palette[e].r == bytes[at] % 64
            &&& 0 <= at && at + 1 < bytes.len() ==> w.palette[e].g == bytes[at + 1] % 64
            &&& 0 <= at && at + 2 < bytes.len() ==> w.palette[e].b == bytes[at + 2] % 64
            &&& !(0 <= at < bytes.len()) ==> w.palette[e] == c.palette[e]
            &&& w.cursor_palette == c.cursor_palette
            &&& laws::sized(w)
            &&& w.sr == c.sr
            &&& w.dac_write_index == first + bytes.len() / 3
            &&& w.dac_component == gun_of(bytes.len() as int)
        }),
    decreases bytes.len(),
{
    if bytes.len() > 0 {
        let before = bytes.drop_last();
        lemma_colours(c, first, before, e);
        let n = before.len() as int;
        assert(bytes.len() == n + 1);
        let v = colours_written(c.reg_written(0x3C8, first), before);
        assert(!v.cursor_colours());
        assert(v.dac_write_index == first + n / 3);
        assert(forall|i: int| 0 <= i < n ==> #[trigger] before[i] == bytes[i]);
        assert(colours_written(c.reg_written(0x3C8, first), bytes) == v.reg_written(
            0x3C9,
            bytes.last(),
        ));
    }
}

/// Byte `n` of a pixel, 0 being the lowest.
#[verifier::opaque]
pub open spec fn byte_of(pixel: u32, n: int) -> int {
    if n == 0 {
        pixel as int % 256
    } else if n == 1 {
        pixel as int / 0x100 % 256
    } else if n == 2 {
        pixel as int / 0x1_0000 % 256
    } else {
        pixel as int / 0x100_0000
    }
}

/// A colour entry goes to the screen with each six-bit level in the upper
/// bits of its byte and its own two top bits below them, red highest, under
/// a full alpha byte.
pub proof fn colours_go_to_the_screen(e: Rgb)
    requires
        e.r < 64,
        e.g < 64,
        e.b < 64,
    ensures
        byte_of(e.argb(), 3) == 0xFF,
        byte_of(e.argb(), 2) / 4 == e.r && byte_of(e.argb(), 2) % 4 == e.r / 16,
        byte_of(e.argb(), 1) / 4 == e.g && byte_of(e.argb(), 1) % 4 == e.g / 16,
        byte_of(e.argb(), 0) / 4 == e.b && byte_of(e.argb(), 0) % 4 == e.b / 16,
{
    lemma_guns(e.argb(), e.r * 4 + e.r / 16, e.g * 4 + e.g / 16, e.b * 4 + e.b / 16);
    lemma_level(e.r as int);
    lemma_level(e.g as int);
    lemma_level(e.b as int);
}

proof fn lemma_level(level: int)
    requires
        0 <= level < 64,
    ensures
        (level * 4 + level / 16) / 4 == level,
        (level * 4 + level / 16) % 4 == level / 16,
        0 <= level * 4 + level / 16 < 256,
{
}

proof fn lemma_guns(v: u32, r: int, g: int, b: int)
    requires
        v == 0xFF00_0000 + r * 0x1_0000 + g * 0x100 + b,
        0 <= r < 256,
        0 <= g < 256,
        0 <= b < 256,
    ensures
        byte_of(v, 3) == 0xFF,
        byte_of(v, 2) == r,
        byte_of(v, 1) == g,
        byte_of(v, 0) == b,
{
    reveal(byte_of);
}

/// With no transfer waiting, a byte pushed through the aperture is stored at
/// its offset; past the end it is dropped.
pub proof fn the_aperture_stores_bytes(c: CirrusState, offset: usize, value: u8, other: int)
    requires
        c.system_blit is None,
        0 <= other < c.vram.len(),
    ensures
        ({
            let w = c.aperture_written(offset, value);
            &&& w == (CirrusState { vram: w.vram, ..c })
            &&& w.vram.len() == c.vram.len()
            &&& w.vram[other] == (if other == offset {
                value
            } else {
                c.vram[other]
            })
        }),
{
}

/// The retrace interrupt shows at bit 7 of the status port exactly while one
/// is pending and register `$11` lets it through, bit 4 high and bit 5 low.
pub proof fn the_retrace_interrupt_shows(c: CirrusState)
    ensures
        c.reg_read(0x3C2).0 == (if c.vblank_pending && c.crtc[0x11] & 0x30 == 0x10 {
            0x80
        } else {
            0u8
        }),
        c.interrupting() <==> c.vblank_pending && c.crtc[0x11] & 0x30 == 0x10,
{
    assert(0x20u8 | 0x10 == 0x30) by (bit_vector);
}

/// The chip after `n` reads of the colour data port.
pub open spec fn colours_read(c: CirrusState, n: nat) -> CirrusState
    decreases n,
{
    if n == 0 {
        c
    } else {
        colours_read(c, (n - 1) as nat).reg_read(0x3C9).1
    }
}

/// One gun of a colour entry, in the order the port gives them.
pub open spec fn gun_level(e: Rgb, n: int) -> u8 {
    if n % 3 == 0 {
        e.r
    } else if n % 3 == 1 {
        e.g
    } else {
        e.b
    }
}

proof fn lemma_colours_read(c: CirrusState, first: u8, n: nat)
    requires
        laws::sized(c),
        first + n / 3 <= 255,
    ensures
        ({
            let w = colours_read(c.reg_written(0x3C7, first), n);
            &&& w == (CirrusState {
                dac_read_index: (first + n / 3) as u8,
                dac_component: gun_of(n as int),
                dac_read_mode: true,
                hidden_dac_arm: 0,
                ..c
            })
        }),
    decreases n,
{
    if n > 0 {
        let m = (n - 1) as nat;
        lemma_colours_read(c, first, m);
        let v = colours_read(c.reg_written(0x3C7, first), m);
        assert(colours_read(c.reg_written(0x3C7, first), n) == v.reg_read(0x3C9).1);
        assert((v.dac_component == Gun::Blue) == (m % 3 == 2));
    }
}

/// Reading the colour table from entry `first` on gives red, green and blue
/// of one entry after the other, and changes no colour.
pub proof fn a_run_of_colours_reads_the_table(c: CirrusState, first: u8, n: nat)
    requires
        laws::sized(c),
        !c.cursor_colours(),
        first + n / 3 <= 255,
    ensures
        ({
            let w = colours_read(c.reg_written(0x3C7, first), n);
            &&& w.reg_read(0x3C9).0 == gun_level(c.palette[first + n as int / 3], n as int)
            &&& w.palette == c.palette
            &&& w.cursor_palette == c.cursor_palette
        }),
{
    lemma_colours_read(c, first, n);
}

/// The index ports tell what they were last used for: reading or writing,
/// and the entry that would be written next.
pub proof fn the_index_ports_tell_their_state(c: CirrusState, index: u8)
    ensures
        c.reg_written(0x3C7, index).reg_read(0x3C7).0 == 3,
        c.reg_written(0x3C8, index).reg_read(0x3C7).0 == 0,
        c.reg_written(0x3C8, index).reg_read(0x3C8).0 == index,
{
}

proof fn lemma_colour_ports(c: CirrusState, value: u8)
    ensures
        put(c, 0x3C7, value) == (CirrusState {
            dac_read_index: value,
            dac_component: Gun::Red,
            dac_read_mode: true,
            hidden_dac_arm: 0,
            ..c
        }),
        put(c, 0x3C8, value) == (CirrusState {
            dac_write_index: value,
            dac_component: Gun::Red,
            dac_read_mode: false,
            hidden_dac_arm: 0,
            ..c
        }),
        put(c, 0x3C9, value) == (CirrusState { hidden_dac_arm: 0, ..c }).dac_written(value),
        get(c, 0x3C9) == c.dac_value(),
{
    reveal(put);
    reveal(get);
}

/// With the cursor's colours selected (bit 1 of sequencer register `$12`),
/// three bytes set one of its sixteen entries instead, and it reads back the
/// same way.
pub proof fn cursor_colours_read_back(c: CirrusState, index: u8, r: u8, g: u8, b: u8)
    requires
        laws::sized(c),
        c.sr[0x12] & 0x02 != 0,
        index < 16,
    ensures
        ({
            let w = put(put(put(put(c, 0x3C8, index), 0x3C9, r), 0x3C9, g), 0x3C9, b);
            &&& w.cursor_palette == c.cursor_palette.update(
                index as int,
                Rgb { r: r % 64, g: g % 64, b: b % 64 },
            )
            &&& w.palette == c.palette
            &&& get(put(w, 0x3C7, index), 0x3C9) == r % 64
        }),
{
    let a = put(c, 0x3C8, index);
    lemma_colour_ports(c, index);
    assert(a.cursor_colours());
    lemma_colour_ports(a, r);
    let d = put(a, 0x3C9, r);
    assert(d.cursor_colours() && d.dac_component == Gun::Green && d.dac_write_index == index);
    lemma_colour_ports(d, g);
    let e = put(d, 0x3C9, g);
    assert(e.cursor_colours() && e.dac_component == Gun::Blue && e.dac_write_index == index);
    lemma_colour_ports(e, b);
    let w = put(e, 0x3C9, b);
    lemma_colour_ports(w, index);
    lemma_colour_ports(put(w, 0x3C7, index), 0);
    assert(w.cursor_palette =~= c.cursor_palette.update(
        index as int,
        Rgb { r: r % 64, g: g % 64, b: b % 64 },
    ));
}

} // verus!
