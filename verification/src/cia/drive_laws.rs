//! What the empty drive does on its control lines, told by the bits of the
//! two ports.

use crate::cia::floppy::{FloppyDrive, FloppyPresence};
use vstd::prelude::*;

verus! {

/// A step moves the head one cylinder: inward while the direction line
/// (bit 1) is low and outward while it is high, within cylinders 0 to 79.
pub proof fn a_step_moves_the_head_one_cylinder(drive: FloppyDrive, prev: u8, val: u8)
    requires
        drive.presence == FloppyPresence::Empty,
        drive.cylinder <= 79,
        val & 0x08 == 0,
        prev & 0x01 != 0,
        val & 0x01 == 0,
    ensures
        val & 0x02 == 0 && drive.cylinder < 79 ==> drive.prb_written(prev, val).cylinder
            == drive.cylinder + 1,
        val & 0x02 == 0 && drive.cylinder == 79 ==> drive.prb_written(prev, val).cylinder == 79,
        val & 0x02 != 0 && drive.cylinder > 0 ==> drive.prb_written(prev, val).cylinder
            == drive.cylinder - 1,
        val & 0x02 != 0 && drive.cylinder == 0 ==> drive.prb_written(prev, val).cylinder == 0,
{
}

/// Nothing but a step while selected moves the head.
pub proof fn only_a_step_moves_the_head(drive: FloppyDrive, prev: u8, val: u8)
    requires
        val & 0x08 != 0 || prev & 0x01 == 0 || val & 0x01 != 0,
    ensures
        drive.prb_written(prev, val).cylinder == drive.cylinder,
{
}

/// The motor is switched as the drive becomes selected, on when the motor
/// line (bit 7) is low on either side of that edge, and at no other time.
/// The select line (bit 3) low selects the drive.
pub proof fn the_motor_is_switched_by_selecting(drive: FloppyDrive, prev: u8, val: u8)
    requires
        drive.presence == FloppyPresence::Empty,
    ensures
        drive.prb_written(prev, val).selected == (val & 0x08 == 0),
        prev & 0x08 != 0 && val & 0x08 == 0 ==> drive.prb_written(prev, val).motor_on == (prev
            & 0x80 == 0 || val & 0x80 == 0),
        prev & 0x08 == 0 || val & 0x08 != 0 ==> drive.prb_written(prev, val).motor_on
            == drive.motor_on,
{
}

/// A drive that is let go and taken again `n` times, its motor line high
/// throughout.
pub open spec fn pulsed(drive: FloppyDrive, n: nat) -> FloppyDrive
    decreases n,
{
    if n == 0 {
        drive
    } else {
        pulsed(drive, (n - 1) as nat).prb_written(0xF7, 0xFF).prb_written(0xFF, 0xF7)
    }
}

/// The lines of the two bytes that let the drive go and take it again.
proof fn lemma_lines()
    ensures
        0xF7u8 & 0x08 == 0,
        0xFFu8 & 0x08 != 0,
        0xF7u8 & 0x80 != 0,
        0xFFu8 & 0x80 != 0,
        0xF7u8 & 0x01 != 0,
        0xFFu8 & 0x01 != 0,
        forall|index: u32| index < 32 ==> 0xFFFF_FFFFu32 & #[trigger] (1u32 << index) != 0,
{
    assert(0xF7u8 & 0x08 == 0 && 0xFFu8 & 0x08 != 0 && 0xF7u8 & 0x80 != 0 && 0xFFu8 & 0x80 != 0
        && 0xF7u8 & 0x01 != 0 && 0xFFu8 & 0x01 != 0 && forall|index: u32|
        index < 32 ==> 0xFFFF_FFFFu32 & #[trigger] (1u32 << index) != 0) by (bit_vector);
}

proof fn lemma_pulsed(drive: FloppyDrive, n: nat)
    requires
        drive.presence == FloppyPresence::Empty,
        drive.selected,
        drive.id_mode,
        !drive.motor_on,
        drive.id_bit == 0,
        drive.id_hold_first_edge,
    ensures
        pulsed(drive, n) == (FloppyDrive {
            id_hold_first_edge: n == 0,
            id_bit: if n == 0 {
                0
            } else if n <= 33 {
                (n - 1) as u8
            } else {
                32
            },
            ..drive
        }),
    decreases n,
{
    lemma_lines();
    if n > 0 {
        lemma_pulsed(drive, (n - 1) as nat);
    }
}

/// The drive identifies itself: once its motor has been switched off, each
/// time it is let go and taken again it shows the next bit of its 32-bit
/// number on the ready line (bit 5 of the other port, low for a one). All
/// thirty-two are ones, and after them the line stays high.
pub proof fn the_drive_shows_its_number(drive: FloppyDrive, n: nat)
    requires
        drive.presence == FloppyPresence::Empty,
        drive.motor_on,
        n > 0,
    ensures
        ({
            let off = drive.prb_written(0xFF, 0xF7);
            let lines = pulsed(off, n).status_bits();
            &&& !off.motor_on
            &&& lines == 0x08 + (if drive.cylinder == 0 {
                0int
            } else {
                0x10
            }) + (if n <= 32 {
                0int
            } else {
                0x20
            })
        }),
{
    lemma_lines();
    let off = drive.prb_written(0xFF, 0xF7);
    lemma_pulsed(off, n);
    let shown = pulsed(off, n);
    if n <= 32 {
        let index = (31 - shown.id_bit) as u32;
        assert(index < 32);
    }
}

} // verus!
