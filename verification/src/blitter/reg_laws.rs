//! What the blitter's registers hold after the writes that set them up, told
//! by register address and by what a program means by the words it writes.

use crate::blitter::BlitRegs;
use vstd::prelude::*;

verus! {

/// Whether every channel has its registers.
pub open spec fn sized(r: BlitRegs) -> bool {
    r.pt.len() == 4 && r.modulo.len() == 4 && r.dat.len() == 4
}

/// Where a channel's pointer is written: the high word here, the low word
/// two further on. A, B, C and D are channels 0 to 3.
pub open spec fn pointer_register(channel: int) -> u16 {
    if channel == 0 {
        0x050
    } else if channel == 1 {
        0x04C
    } else if channel == 2 {
        0x048
    } else {
        0x054
    }
}

/// Where a channel's modulo is written.
pub open spec fn modulo_register(channel: int) -> u16 {
    if channel == 0 {
        0x064
    } else if channel == 1 {
        0x062
    } else if channel == 2 {
        0x060
    } else {
        0x066
    }
}

/// Where a source channel's data is written.
pub open spec fn data_register(channel: int) -> u16 {
    if channel == 0 {
        0x074
    } else if channel == 1 {
        0x072
    } else {
        0x070
    }
}

/// Each half of a pointer is written at its own address.
proof fn lemma_halves(r: BlitRegs, channel: int, value: u16)
    requires
        0 <= channel < 4,
    ensures
        r.written(pointer_register(channel), value) == r.with_ptr_hi(channel, value),
        r.written((pointer_register(channel) + 2) as u16, value) == r.with_ptr_lo(channel, value),
{
}

/// The two words of an address without its lowest bit.
proof fn lemma_address(address: u32, hi: u16, lo: u16)
    requires
        hi == address / 0x1_0000,
        lo == address % 0x1_0000,
    ensures
        hi % 32 * 0x1_0000 + (lo - lo % 2) == address % 0x20_0000 - address % 2,
{
}

/// An even address of chip RAM written as two words becomes the channel's
/// pointer, in whichever order they are written, and no other register
/// changes. Bits above the RAM and the lowest bit are dropped.
pub proof fn written_pointer_is_the_address(r: BlitRegs, channel: int, address: u32)
    requires
        sized(r),
        0 <= channel < 4,
    ensures
        ({
            let at = pointer_register(channel);
            let (hi, lo) = ((address / 0x1_0000) as u16, (address % 0x1_0000) as u16);
            let set = r.written(at, hi).written((at + 2) as u16, lo);
            &&& set.pt[channel] == address % 0x20_0000 - address % 2
            &&& set == r.written((at + 2) as u16, lo).written(at, hi)
            &&& set == (BlitRegs { pt: set.pt, ..r })
            &&& forall|other: int|
                0 <= other < 4 && other != channel ==> #[trigger] set.pt[other] == r.pt[other]
        }),
{
    let at = pointer_register(channel);
    let (hi, lo) = ((address / 0x1_0000) as u16, (address % 0x1_0000) as u16);
    let set = r.written(at, hi).written((at + 2) as u16, lo);
    let back = r.written((at + 2) as u16, lo).written(at, hi);
    lemma_halves(r, channel, hi);
    lemma_halves(r, channel, lo);
    lemma_halves(r.with_ptr_hi(channel, hi), channel, lo);
    lemma_halves(r.with_ptr_lo(channel, lo), channel, hi);
    lemma_address(address, hi, lo);
    assert(set.pt =~= back.pt);
}

/// A modulo is written in two's complement: any step from -32768 to 32767
/// reaches its own channel as the number that was meant, and changes nothing
/// else.
pub proof fn written_modulo_is_the_step(r: BlitRegs, channel: int, step: int)
    requires
        sized(r),
        0 <= channel < 4,
        -0x8000 <= step < 0x8000,
    ensures
        ({
            let set = r.written(modulo_register(channel), (step % 0x1_0000) as u16);
            &&& set.modulo[channel] == step
            &&& set == (BlitRegs { modulo: set.modulo, ..r })
            &&& forall|other: int|
                0 <= other < 4 && other != channel ==> #[trigger] set.modulo[other]
                    == r.modulo[other]
        }),
{
}

/// A source channel's data word reaches that channel alone.
pub proof fn written_data_reaches_its_channel(r: BlitRegs, channel: int, value: u16)
    requires
        sized(r),
        0 <= channel < 3,
    ensures
        ({
            let set = r.written(data_register(channel), value);
            &&& set.dat[channel] == value
            &&& set == (BlitRegs { dat: set.dat, ..r })
            &&& forall|other: int|
                0 <= other < 4 && other != channel ==> #[trigger] set.dat[other] == r.dat[other]
        }),
{
}

/// Control words and masks are held as written. The short control register
/// replaces the minterm and keeps the channel enables and the shift.
pub proof fn written_controls_are_held(r: BlitRegs, value: u16)
    ensures
        r.written(0x040, value) == (BlitRegs { con0: value, ..r }),
        r.written(0x042, value) == (BlitRegs { con1: value, ..r }),
        r.written(0x044, value) == (BlitRegs { afwm: value, ..r }),
        r.written(0x046, value) == (BlitRegs { alwm: value, ..r }),
        ({
            let set = r.written(0x05A, value);
            &&& set == (BlitRegs { con0: set.con0, ..r })
            &&& set.con0 / 256 == r.con0 / 256
            &&& set.con0 % 256 == value % 256
        }),
{
}

/// One size word arms a blit of any rectangle up to 1024 rows of 64 words:
/// rows in its upper ten bits and words in its lower six, where the largest
/// of each is written as zero.
pub proof fn size_word_arms_the_rectangle(r: BlitRegs, rows: int, words: int)
    requires
        1 <= rows <= 1024,
        1 <= words <= 64,
    ensures
        r.written(0x058, (rows % 1024 * 64 + words % 64) as u16) == (BlitRegs {
            height: rows as u16,
            width: words as u16,
            pending: true,
            ..r
        }),
{
    let v = (rows % 1024 * 64 + words % 64) as u16;
    assert(v / 64 == rows % 1024 && v % 64 == words % 64);
}

/// The large-size pair arms a blit of up to 32767 rows of 2047 words once
/// the width is written.
pub proof fn size_pair_arms_the_rectangle(r: BlitRegs, rows: u16, words: u16)
    requires
        rows < 0x8000,
        words < 0x800,
    ensures
        r.written(0x05C, rows) == (BlitRegs { height: rows, ..r }),
        r.written(0x05C, rows).written(0x05E, words) == (BlitRegs {
            height: rows,
            width: words,
            pending: true,
            ..r
        }),
{
}

/// Nothing else is writable, and only a size write can arm a blit.
pub proof fn other_registers_change_nothing(r: BlitRegs, offset: u16, value: u16)
    ensures
        offset < 0x040 || offset > 0x074 || offset % 2 == 1 || 0x067 <= offset < 0x070
            ==> r.written(offset, value) == r,
        offset != 0x058 && offset != 0x05E ==> r.written(offset, value).pending == r.pending,
{
}

} // verus!
