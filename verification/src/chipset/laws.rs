//! What the custom-chip registers show and keep, told by their addresses.

use crate::chipset;
use crate::chipset::Chipset;
use vstd::prelude::*;

verus! {

/// Bit `bit` of a word.
pub open spec fn bit(word: u16, bit: u16) -> bool {
    (word >> bit) & 1 == 1
}

/// A set/clear register read back after a write: with bit 15 written, the
/// named bits are set, without it they are cleared, and the rest is as it
/// was.
pub open spec fn set_or_cleared(before: u16, value: u16, after: u16, b: u16) -> bool {
    bit(after, b) == if bit(value, b) {
        value & 0x8000 != 0
    } else {
        bit(before, b)
    }
}

/// The interrupt enable is written at `$09A` and read at `$01C`, the
/// requests at `$09C` and `$01E`, DMA control at `$096` and `$002`, and
/// audio/disk control at `$09E` and `$010`, each with the set/clear
/// convention and without disturbing another register.
pub proof fn control_registers_read_back(c: Chipset, value: u16, b: u16)
    requires
        b < 15,
    ensures
        set_or_cleared(
            c.reg_value(0x01C),
            value,
            c.written(0x09A, value).reg_value(0x01C),
            b,
        ),
        set_or_cleared(
            c.reg_value(0x01E),
            value,
            c.written(0x09C, value).reg_value(0x01E),
            b,
        ),
        set_or_cleared(
            c.reg_value(0x002),
            value,
            c.written(0x096, value).reg_value(0x002),
            b,
        ),
        set_or_cleared(
            c.reg_value(0x010),
            value,
            c.written(0x09E, value).reg_value(0x010),
            b,
        ),
        c.written(0x09A, value) == (Chipset { intena: c.written(0x09A, value).intena, ..c }),
        c.written(0x09C, value) == (Chipset { intreq: c.written(0x09C, value).intreq, ..c }),
        c.written(0x096, value) == (Chipset { dmacon: c.written(0x096, value).dmacon, ..c }),
        c.written(0x09E, value) == (Chipset { adkcon: c.written(0x09E, value).adkcon, ..c }),
        c.reg_value(0x01C) == c.intena,
        c.reg_value(0x01E) == c.intreq,
{
    chipset::setclr_touches_named_bits(c.intena, value, b);
    chipset::setclr_touches_named_bits(c.intreq, value, b);
    chipset::setclr_touches_named_bits(c.dmacon, value, b);
    chipset::setclr_touches_named_bits(c.adkcon, value, b);
}

/// The two position registers show where the beam is: its line over bit 0 of
/// `$004` and the upper byte of `$006`, its place in the line in the lower
/// byte. The rest of `$004` names the chip.
pub proof fn position_registers_show_the_beam(c: Chipset)
    requires
        c.in_frame(),
    ensures
        c.reg_value(0x004) % 2 * 256 + c.reg_value(0x006) / 256 == c.vpos,
        c.reg_value(0x006) % 256 == c.hpos,
        c.reg_value(0x004) / 2 == 0x1000,
{
}

/// The input registers show what the host fed them, the serial port an empty
/// transmitter and the disk nothing, and everything else floats.
pub proof fn the_other_registers(c: Chipset, offset: u16)
    ensures
        c.reg_value(0x00A) == c.joy0dat,
        c.reg_value(0x00C) == c.joy1dat,
        c.reg_value(0x016) == c.potgor,
        c.reg_value(0x018) == 0x2000,
        c.reg_value(0x01A) == 0,
        offset > 0x01E || offset % 2 == 1 || offset == 0x000 || offset == 0x008 || offset == 0x00E
            || offset == 0x012 || offset == 0x014 ==> c.reg_value(offset) == 0xFFFF,
{
}

/// No other address takes a write.
pub proof fn only_control_registers_take_writes(c: Chipset, offset: u16, value: u16)
    requires
        offset != 0x096,
        offset != 0x09A,
        offset != 0x09C,
        offset != 0x09E,
    ensures
        c.written(offset, value) == c,
{
}

} // verus!
