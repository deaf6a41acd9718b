//! Floppy drive status: CIA-A PRA bits 2-5, driven by CIA-B PRB writes.
//!
//! Disk presence is sensed entirely through these port pins, all active low:
//! CIA-A PRA bit 2 DSKCHNG, bit 3 DSKPROT, bit 4 DSKTRACK0, bit 5 DSKRDY;
//! CIA-B PRB bit 0 DSKSTEP, bit 1 DSKDIREC, bit 3 DSKSEL0, bit 7 DSKMOTOR.

use vstd::prelude::*;

verus! {

/// CIA-B PRB bit for DSKSTEP: the mechanism moves on the falling edge.
pub const CIAB_DSKSTEP: u8 = 0x01;

/// CIA-B PRB bit for DSKDIREC, latched at the DSKSTEP falling edge: 0 = step
/// inward (toward higher cylinder numbers), 1 = step outward.
pub const CIAB_DSKDIREC: u8 = 0x02;

/// CIA-B PRB bit for DSKSEL0 (df0's select line, active low).
pub const CIAB_DSKSEL0: u8 = 0x08;

/// CIA-B PRB bit for DSKMOTOR: 0 = motor commanded on.
pub const CIAB_DSKMOTOR: u8 = 0x80;

pub const CIAA_DSKCHANGE: u8 = 0x04;

pub const CIAA_DSKPROT: u8 = 0x08;

pub const CIAA_DSKTRACK0: u8 = 0x10;

pub const CIAA_DSKRDY: u8 = 0x20;

/// Mask of the four PRA bits `FloppyDrive` drives.
pub const FLOPPY_PRA_MASK: u8 = 0x3C;

/// Head travel limit: a 3.5" DD mechanism has 80 cylinders (0-79).
pub const MAX_CYLINDER: u8 = 79;

/// Which floppy configuration `FloppyDrive` presents.
#[derive(Clone, Copy, PartialEq, Eq, Debug, Structural)]
pub enum FloppyPresence {
    /// No physical drive at all.
    Absent,
    /// A drive is present with no disk in it.
    Empty,
}

impl FloppyPresence {
    /// The 32-bit ID that a drive clocks out while its motor is off.
    pub open spec fn id(self) -> u32 {
        match self {
            FloppyPresence::Absent => 0x0000_0000,
            FloppyPresence::Empty => 0xFFFF_FFFF,
        }
    }

    /// The 32-bit drive ID a DSKRDY shift sequence clocks out while the
    /// motor is off and the drive selected: zero for no drive, all ones for
    /// a standard 3.5" DD drive.
    pub fn drive_id(self) -> (id: u32)
        ensures
            id == self.id(),
    {
        match self {
            FloppyPresence::Absent => 0x0000_0000,
            FloppyPresence::Empty => 0xFFFF_FFFF,
        }
    }
}

/// A single floppy drive bay (df0).
#[derive(Clone, Copy)]
pub struct FloppyDrive {
    pub presence: FloppyPresence,
    pub motor_on: bool,
    pub selected: bool,
    /// Head position, 0-79.
    pub cylinder: u8,
    /// True while the drive is clocking its 32-bit ID out through DSKRDY:
    /// entered on a motor on-to-off transition, left on the next off-to-on.
    pub id_mode: bool,
    /// Next bit to emit, 0-31 MSB first; 32 once exhausted, which reads as 0
    /// forever after.
    pub id_bit: u8,
    /// Absorbs the deselect edge that follows immediately from entering ID
    /// mode, which does not itself clock a bit out.
    pub id_hold_first_edge: bool,
}

/// Bit `index` of a shift register's word, most significant first; past its
/// length it reads 0.
pub open spec fn id_bit_at(id: u32, index: u8) -> bool {
    index < 32 && id & (1u32 << ((31 - index) as u32)) != 0
}

impl FloppyDrive {
    /// The drive after a select falling edge. The motor relay is a latch
    /// clocked by this edge: MTR asserted on either side of it starts the
    /// motor, and only MTR deasserted on both sides stops it.
    pub open spec fn select_edge(self, prev: u8, val: u8) -> FloppyDrive {
        let motor = prev & CIAB_DSKMOTOR == 0 || val & CIAB_DSKMOTOR == 0;
        if motor {
            FloppyDrive { id_mode: false, id_bit: 0, motor_on: true, ..self }
        } else if self.motor_on {
            FloppyDrive {
                id_mode: true,
                id_bit: 0,
                id_hold_first_edge: true,
                motor_on: false,
                ..self
            }
        } else {
            self
        }
    }

    /// The drive after a deselect edge, which clocks the next ID bit out.
    pub open spec fn deselect_edge(self) -> FloppyDrive {
        if !self.id_mode || self.motor_on {
            self
        } else if self.id_hold_first_edge {
            FloppyDrive { id_hold_first_edge: false, ..self }
        } else {
            FloppyDrive {
                id_bit: if self.id_bit >= 32 {
                    32
                } else {
                    (self.id_bit + 1) as u8
                },
                ..self
            }
        }
    }

    /// The drive after one step of the head, which stops at either end of
    /// its travel.
    pub open spec fn stepped(self, inward: bool) -> FloppyDrive {
        FloppyDrive {
            cylinder: if inward {
                if self.cylinder >= MAX_CYLINDER {
                    MAX_CYLINDER
                } else {
                    (self.cylinder + 1) as u8
                }
            } else if self.cylinder == 0 {
                0
            } else {
                (self.cylinder - 1) as u8
            },
            ..self
        }
    }

    /// The drive after PRB went from `prev` to `val`.
    pub open spec fn prb_written(self, prev: u8, val: u8) -> FloppyDrive {
        if self.presence == FloppyPresence::Absent {
            self
        } else {
            let was_selected = prev & CIAB_DSKSEL0 == 0;
            let selected = val & CIAB_DSKSEL0 == 0;
            let lined = FloppyDrive { selected, ..self };
            let edged = if !was_selected && selected {
                lined.select_edge(prev, val)
            } else if was_selected && !selected {
                lined.deselect_edge()
            } else {
                lined
            };
            if selected && prev & CIAB_DSKSTEP != 0 && val & CIAB_DSKSTEP == 0 {
                edged.stepped(val & CIAB_DSKDIREC == 0)
            } else {
                edged
            }
        }
    }

    /// Whether the drive pulls DSKRDY low: while it clocks a set ID bit out.
    pub open spec fn ready_asserted(self) -> bool {
        self.id_mode && !self.motor_on && id_bit_at(self.presence.id(), self.id_bit)
    }

    /// The four PRA bits. Idle high unless a drive is there and selected;
    /// then DSKCHNG is always asserted (there is never a disk), DSKPROT
    /// never, DSKTRACK0 at cylinder 0, and DSKRDY by the ID shift.
    pub open spec fn status_bits(self) -> u8 {
        if self.presence == FloppyPresence::Absent || !self.selected {
            FLOPPY_PRA_MASK
        } else {
            (CIAA_DSKPROT + (if self.cylinder != 0 {
                CIAA_DSKTRACK0
            } else {
                0
            }) + (if self.ready_asserted() {
                0
            } else {
                CIAA_DSKRDY
            })) as u8
        }
    }

    pub fn new(presence: FloppyPresence) -> (drive: Self)
        ensures
            drive == (FloppyDrive {
                presence,
                motor_on: false,
                selected: false,
                cylinder: 0,
                id_mode: false,
                id_bit: 0,
                id_hold_first_edge: false,
            }),
    {
        Self {
            presence,
            motor_on: false,
            selected: false,
            cylinder: 0,
            id_mode: false,
            id_bit: 0,
            id_hold_first_edge: false,
        }
    }

    pub fn presence(&self) -> (presence: FloppyPresence)
        ensures
            presence == self.presence,
    {
        self.presence
    }

    /// Apply a CIA-B PRB write, given the value before and after, and update
    /// motor/select/step/ID-shift state from the edges between them. A no-op
    /// when there is no drive.
    pub fn on_prb_write(&mut self, prev: u8, val: u8)
        ensures
            *final(self) == old(self).prb_written(prev, val),
    {
        if self.presence == FloppyPresence::Absent {
            return;
        }
        let was_selected = prev & CIAB_DSKSEL0 == 0;
        let selected = val & CIAB_DSKSEL0 == 0;
        self.selected = selected;

        if !was_selected && selected {
            let motor_next = prev & CIAB_DSKMOTOR == 0 || val & CIAB_DSKMOTOR == 0;
            if motor_next {
                self.id_mode = false;
                self.id_bit = 0;
            } else if self.motor_on {
                self.id_mode = true;
                self.id_bit = 0;
                self.id_hold_first_edge = true;
            }
            self.motor_on = motor_next;
        } else if was_selected && !selected && self.id_mode && !self.motor_on {
            if self.id_hold_first_edge {
                self.id_hold_first_edge = false;
            } else {
                self.id_bit = if self.id_bit >= 32 {
                    32
                } else {
                    self.id_bit + 1
                };
            }
        }

        // The mechanism moves on the step line's falling edge, latching
        // whatever the direction line reads in the same write.
        if selected && prev & CIAB_DSKSTEP != 0 && val & CIAB_DSKSTEP == 0 {
            if val & CIAB_DSKDIREC == 0 {
                self.cylinder = if self.cylinder >= MAX_CYLINDER {
                    MAX_CYLINDER
                } else {
                    self.cylinder + 1
                };
            } else if self.cylinder > 0 {
                self.cylinder = self.cylinder - 1;
            }
        }
    }

    /// The four CIA-A PRA bits (2-5) this drive currently drives, in PRA bit
    /// position with the active-low convention applied.
    pub fn pra_status_bits(&self) -> (bits: u8)
        ensures
            bits == self.status_bits(),
    {
        if self.presence == FloppyPresence::Absent || !self.selected {
            return FLOPPY_PRA_MASK;
        }
        let mut bits: u8 = CIAA_DSKPROT;
        if self.cylinder != 0 {
            bits = bits + CIAA_DSKTRACK0;
        }
        let rdy_asserted = self.id_mode && !self.motor_on && shift_id_bit(
            self.presence.drive_id(),
            self.id_bit,
        );
        if !rdy_asserted {
            bits = bits + CIAA_DSKRDY;
        }
        bits
    }
}

/// The bit a 32-bit drive-ID shift register presents at `index` (0-31, MSB
/// first; any `index >= 32` reads 0).
pub fn shift_id_bit(id: u32, index: u8) -> (set: bool)
    ensures
        set == id_bit_at(id, index),
{
    if index >= 32 {
        return false;
    }
    id & (1u32 << ((31 - index) as u32)) != 0
}

/// With no drive, no write has any effect and every status line idles high.
pub proof fn no_drive_never_answers(drive: FloppyDrive, prev: u8, val: u8)
    requires
        drive.presence == FloppyPresence::Absent,
    ensures
        drive.prb_written(prev, val) == drive,
        drive.status_bits() == FLOPPY_PRA_MASK,
{
}

/// The head never leaves its travel, and only moves while selected, one
/// cylinder per falling edge of the step line.
pub proof fn head_stays_on_the_disk(drive: FloppyDrive, prev: u8, val: u8)
    requires
        drive.cylinder <= MAX_CYLINDER,
        drive.id_bit <= 32,
    ensures
        drive.prb_written(prev, val).cylinder <= MAX_CYLINDER,
        drive.prb_written(prev, val).id_bit <= 32,
        !(val & CIAB_DSKSEL0 == 0 && prev & CIAB_DSKSTEP != 0 && val & CIAB_DSKSTEP == 0)
            ==> drive.prb_written(prev, val).cylinder == drive.cylinder,
        drive.prb_written(prev, val).cylinder <= drive.cylinder + 1,
        drive.cylinder <= drive.prb_written(prev, val).cylinder + 1,
{
}

/// A selected empty drive asserts DSKTRACK0 exactly at cylinder 0, always
/// asserts DSKCHNG, never DSKPROT; unselected it leaves every line idle.
pub proof fn status_lines_follow_the_drive(drive: FloppyDrive)
    requires
        drive.presence == FloppyPresence::Empty,
    ensures
        !drive.selected ==> drive.status_bits() == FLOPPY_PRA_MASK,
        drive.selected ==> (drive.status_bits() & CIAA_DSKTRACK0 == 0) == (drive.cylinder == 0),
        drive.selected ==> (drive.status_bits() & CIAA_DSKRDY == 0) == drive.ready_asserted(),
        drive.selected ==> drive.status_bits() & CIAA_DSKCHANGE == 0 && drive.status_bits()
            & CIAA_DSKPROT != 0,
{
    assert(0x08u8 & 0x10 == 0 && 0x18u8 & 0x10 != 0 && 0x28u8 & 0x10 == 0 && 0x38u8 & 0x10 != 0
        && 0x08u8 & 0x20 == 0 && 0x18u8 & 0x20 == 0 && 0x28u8 & 0x20 != 0 && 0x38u8 & 0x20 != 0
        && 0x08u8 & 0x04 == 0 && 0x18u8 & 0x04 == 0 && 0x28u8 & 0x04 == 0 && 0x38u8 & 0x04 == 0
        && 0x08u8 & 0x08 != 0 && 0x18u8 & 0x08 != 0 && 0x28u8 & 0x08 != 0 && 0x38u8 & 0x08 != 0)
        by (bit_vector);
}

/// The motor relay follows the motor line only at a select edge: while the
/// select line does not fall, the motor keeps its state whatever MTR does.
pub proof fn motor_changes_only_on_select(drive: FloppyDrive, prev: u8, val: u8)
    requires
        !(prev & CIAB_DSKSEL0 != 0 && val & CIAB_DSKSEL0 == 0),
    ensures
        drive.prb_written(prev, val).motor_on == drive.motor_on,
{
}

} // verus!
