//! The two 8520 CIAs, register-level (not cycle-level) faithful.
//!
//! Timers A/B count the E-clock, TOD counts with an alarm, the ICR clears
//! and acknowledges when read, and the CIA-A serial port clocks host key
//! events in as the hardware does, which is what lets keyboard.device run
//! unmodified.

use crate::be;
use crate::ring::Ring;
use vstd::prelude::*;

pub mod clock_laws;
pub mod drive_laws;
pub mod floppy;
pub mod icr;
pub mod laws;
pub mod reg;

pub use crate::cia::floppy::{
    shift_id_bit, FloppyDrive, FloppyPresence, CIAA_DSKCHANGE, CIAA_DSKPROT, CIAA_DSKRDY,
    CIAA_DSKTRACK0, CIAB_DSKDIREC, CIAB_DSKMOTOR, CIAB_DSKSEL0, CIAB_DSKSTEP, FLOPPY_PRA_MASK,
};

verus! {

/// CRA bit 0: timer A runs.
pub const CRA_START: u8 = 0x01;

/// CRA bit 3: one-shot rather than continuous.
pub const CRA_RUNMODE: u8 = 0x08;

/// CRA bit 4: write-only strobe, force a reload now.
pub const CRA_LOAD: u8 = 0x10;

/// CRA bit 5: 0 = timer A counts the E-clock, 1 = timer A counts CNT
/// pulses. Nothing drives the CNT pin, so INMODE=1 never counts.
pub const CRA_INMODE: u8 = 0x20;

/// CRA bit 6: serial port direction. 0 = input (the keyboard shifts bytes
/// into SDR), 1 = output (software is driving the handshake pulse).
pub const CRA_SPMODE: u8 = 0x40;

pub const CRB_START: u8 = 0x01;

pub const CRB_RUNMODE: u8 = 0x08;

pub const CRB_LOAD: u8 = 0x10;

/// CRB bits 5-6: timer B input mode. `00` E-clock, `01` CNT (never pulses),
/// `10` timer-A underflow, `11` timer-A underflow gated by CNT high (which
/// idles high, so both cascades behave alike).
pub const CRB_INMODE_MASK: u8 = 0x60;

pub const CRB_INMODE_SHIFT: u8 = 5;

/// CRB bit 7: TOD register writes target the alarm instead of the counter
/// while this is set.
pub const CRB_ALARM: u8 = 0x80;

/// The E-clock frequency the CIAs count on, in Hz (PAL).
pub const E_CLOCK_HZ: u32 = 709_379;

/// E-clock ticks the keyboard takes to shift one byte in before it lands in
/// SDR and raises the SP interrupt: about a millisecond.
pub const KEYBOARD_HANDSHAKE_TICKS: u16 = 709;

/// Host key events the serial port holds before dropping more.
pub const KEYBOARD_QUEUE_LEN: usize = 16;

/// Which of the two CIAs an instance is.
#[derive(Clone, Copy, PartialEq, Eq, Debug, Structural)]
pub enum CiaId {
    /// CIA-A: keyboard serial port, OVL/LED on port A, INT2.
    A,
    /// CIA-B: serial/parallel handshake lines, INT6.
    B,
}

/// What a CIA holds.
#[verifier::ext_equal]
pub struct CiaState {
    pub id: CiaId,
    pub pra: u8,
    pub prb: u8,
    pub ddra: u8,
    pub ddrb: u8,
    pub pra_input: u8,
    pub prb_input: u8,
    pub timer_a: u16,
    pub timer_b: u16,
    pub latch_a: u16,
    pub latch_b: u16,
    pub cra: u8,
    pub crb: u8,
    pub tod: u32,
    pub tod_alarm: u32,
    pub tod_latched: Option<u32>,
    pub tod_stopped: bool,
    pub tod_matching: bool,
    pub icr_mask: u8,
    pub icr_data: u8,
    pub sdr: u8,
    /// Queued keycodes, oldest first.
    pub keys: Seq<u8>,
    pub kbd_delay: u16,
    pub kbd_loaded: bool,
    pub carry: u32,
}

/// A 24-bit counter byte: 0 is the low one.
pub open spec fn tod_byte(value: u32, which: u8) -> u8 {
    if which == reg::TODLO {
        (value % 256) as u8
    } else if which == reg::TODMID {
        (value / 256 % 256) as u8
    } else {
        (value / 65536 % 256) as u8
    }
}

/// A 24-bit counter with one byte replaced.
pub open spec fn with_tod_byte(value: u32, which: u8, byte: u8) -> u32 {
    if which == reg::TODLO {
        (value / 256 % 65536 * 256 + byte) as u32
    } else if which == reg::TODMID {
        (value / 65536 % 256 * 65536 + byte * 256 + value % 256) as u32
    } else {
        (byte * 65536 + value % 65536) as u32
    }
}

/// A keycode as the keyboard transmits it: rotated left one bit, then
/// inverted.
pub open spec fn on_wire(raw: u8) -> u8 {
    (0xFF - (raw % 128 * 2 + raw / 128)) as u8
}

impl CiaState {
    /// Whether the chip is requesting an interrupt.
    pub open spec fn requesting(self) -> bool {
        self.icr_data & self.icr_mask != 0
    }

    /// The chip with an interrupt source latched.
    pub open spec fn raised(self, bit: u8) -> CiaState {
        CiaState { icr_data: self.icr_data | (1u8 << bit), ..self }
    }

    /// The alarm comparator after `tod` or `tod_alarm` may have moved: ALRM
    /// latches only on the transition into equality.
    pub open spec fn alarm_checked(self) -> CiaState {
        let equal = self.tod == self.tod_alarm;
        let now = CiaState { tod_matching: equal, ..self };
        if equal && !self.tod_matching {
            now.raised(icr::ALRM)
        } else {
            now
        }
    }

    /// The chip after TOD advances by one, unless it is stopped.
    pub open spec fn tod_ticked(self) -> CiaState {
        if self.tod_stopped {
            self
        } else {
            (CiaState { tod: ((self.tod + 1) % 0x100_0000) as u32, ..self }).alarm_checked()
        }
    }

    /// What a register read returns, and the chip after it.
    pub open spec fn reg_read(self, reg: u8) -> (u8, CiaState) {
        let r = reg % 16;
        if r == reg::PRA {
            ((self.pra & self.ddra) | (self.pra_input & !self.ddra), self)
        } else if r == reg::PRB {
            ((self.prb & self.ddrb) | (self.prb_input & !self.ddrb), self)
        } else if r == reg::DDRA {
            (self.ddra, self)
        } else if r == reg::DDRB {
            (self.ddrb, self)
        } else if r == reg::TALO {
            (be::lo8(self.timer_a), self)
        } else if r == reg::TAHI {
            (be::hi8(self.timer_a), self)
        } else if r == reg::TBLO {
            (be::lo8(self.timer_b), self)
        } else if r == reg::TBHI {
            (be::hi8(self.timer_b), self)
        } else if r == reg::SDR {
            (self.sdr, CiaState { kbd_loaded: false, ..self })
        } else if r == reg::ICR {
            (
                if self.requesting() {
                    self.icr_data | (1u8 << icr::IR)
                } else {
                    self.icr_data
                },
                CiaState { icr_data: 0, ..self },
            )
        } else if r == reg::CRA {
            (self.cra, self)
        } else if r == reg::CRB {
            (self.crb, self)
        } else if r == reg::TODLO || r == reg::TODMID || r == reg::TODHI {
            let snapshot = match self.tod_latched {
                Some(value) => value,
                None => self.tod,
            };
            (
                tod_byte(snapshot, r),
                CiaState {
                    tod_latched: if r == reg::TODLO {
                        None
                    } else if r == reg::TODHI {
                        Some(snapshot)
                    } else {
                        self.tod_latched
                    },
                    ..self
                },
            )
        } else {
            (0xFF, self)
        }
    }

    /// The chip after a TOD register write: the alarm while CRB bit 7 is
    /// set, else the counter, which stops from the high byte's write until
    /// the low byte's.
    pub open spec fn tod_written(self, which: u8, value: u8) -> CiaState {
        (if self.crb & CRB_ALARM != 0 {
            CiaState { tod_alarm: with_tod_byte(self.tod_alarm, which, value), ..self }
        } else {
            CiaState {
                tod: with_tod_byte(self.tod, which, value),
                tod_stopped: if which == reg::TODHI {
                    true
                } else if which == reg::TODLO {
                    false
                } else {
                    self.tod_stopped
                },
                ..self
            }
        }).alarm_checked()
    }

    /// The chip after a register write.
    pub open spec fn reg_written(self, reg: u8, value: u8) -> CiaState {
        let r = reg % 16;
        if r == reg::PRA {
            CiaState { pra: value, ..self }
        } else if r == reg::PRB {
            CiaState { prb: value, ..self }
        } else if r == reg::DDRA {
            CiaState { ddra: value, ..self }
        } else if r == reg::DDRB {
            CiaState { ddrb: value, ..self }
        } else if r == reg::TALO {
            CiaState { latch_a: be::be16(be::hi8(self.latch_a), value), ..self }
        } else if r == reg::TAHI {
            let latch = be::be16(value, be::lo8(self.latch_a));
            let one_shot = self.cra & CRA_RUNMODE != 0;
            CiaState {
                latch_a: latch,
                timer_a: if one_shot || self.cra & CRA_START == 0 {
                    latch
                } else {
                    self.timer_a
                },
                cra: if one_shot {
                    self.cra | CRA_START
                } else {
                    self.cra
                },
                ..self
            }
        } else if r == reg::TBLO {
            CiaState { latch_b: be::be16(be::hi8(self.latch_b), value), ..self }
        } else if r == reg::TBHI {
            let latch = be::be16(value, be::lo8(self.latch_b));
            let one_shot = self.crb & CRB_RUNMODE != 0;
            CiaState {
                latch_b: latch,
                timer_b: if one_shot || self.crb & CRB_START == 0 {
                    latch
                } else {
                    self.timer_b
                },
                crb: if one_shot {
                    self.crb | CRB_START
                } else {
                    self.crb
                },
                ..self
            }
        } else if r == reg::SDR {
            CiaState { sdr: value, ..self }
        } else if r == reg::ICR {
            CiaState {
                icr_mask: if value & 0x80 != 0 {
                    self.icr_mask | (value & 0x1F)
                } else {
                    self.icr_mask & !(value & 0x1F)
                },
                ..self
            }
        } else if r == reg::CRA {
            CiaState {
                cra: value & !CRA_LOAD,
                timer_a: if value & CRA_LOAD != 0 {
                    self.latch_a
                } else {
                    self.timer_a
                },
                ..self
            }
        } else if r == reg::CRB {
            CiaState {
                crb: value & !CRB_LOAD,
                timer_b: if value & CRB_LOAD != 0 {
                    self.latch_b
                } else {
                    self.timer_b
                },
                ..self
            }
        } else if r == reg::TODLO || r == reg::TODMID || r == reg::TODHI {
            self.tod_written(r, value)
        } else {
            self
        }
    }

    /// Whether timer A counts this E-clock.
    pub open spec fn timer_a_counts(self) -> bool {
        self.cra & CRA_START != 0 && self.cra & CRA_INMODE == 0
    }

    /// Whether timer A underflows this E-clock: it counts, and is at zero.
    pub open spec fn timer_a_underflows(self) -> bool {
        self.timer_a_counts() && self.timer_a == 0
    }

    /// The chip after timer A's share of an E-clock. An underflow reloads
    /// the latch, raises TA, and stops a one-shot timer.
    pub open spec fn timer_a_stepped(self) -> CiaState {
        if !self.timer_a_counts() {
            self
        } else if self.timer_a > 0 {
            CiaState { timer_a: (self.timer_a - 1) as u16, ..self }
        } else {
            (CiaState {
                timer_a: self.latch_a,
                cra: if self.cra & CRA_RUNMODE != 0 {
                    self.cra & !CRA_START
                } else {
                    self.cra
                },
                ..self
            }).raised(icr::TA)
        }
    }

    /// Whether timer B counts this E-clock, given whether timer A
    /// underflowed.
    pub open spec fn timer_b_counts(self, a_underflowed: bool) -> bool {
        let inmode = self.crb / 32 % 4;
        self.crb & CRB_START != 0 && (inmode == 0 || inmode >= 2 && a_underflowed)
    }

    /// The chip after timer B's share of an E-clock.
    pub open spec fn timer_b_stepped(self, a_underflowed: bool) -> CiaState {
        if !self.timer_b_counts(a_underflowed) {
            self
        } else if self.timer_b > 0 {
            CiaState { timer_b: (self.timer_b - 1) as u16, ..self }
        } else {
            (CiaState {
                timer_b: self.latch_b,
                crb: if self.crb & CRB_RUNMODE != 0 {
                    self.crb & !CRB_START
                } else {
                    self.crb
                },
                ..self
            }).raised(icr::TB)
        }
    }

    /// The chip after the keyboard's share of an E-clock. In input mode the
    /// oldest queued keycode starts shifting in once the previous one has
    /// been read, and lands in SDR with an SP interrupt when its delay ends.
    pub open spec fn keyboard_stepped(self) -> CiaState {
        if self.cra & CRA_SPMODE != 0 {
            self
        } else {
            let delay = if self.kbd_delay == 0 && !self.kbd_loaded && self.keys.len() > 0 {
                KEYBOARD_HANDSHAKE_TICKS
            } else {
                self.kbd_delay
            };
            if delay == 0 {
                self
            } else if delay > 1 || self.keys.len() == 0 {
                CiaState { kbd_delay: (delay - 1) as u16, ..self }
            } else {
                (CiaState {
                    kbd_delay: 0,
                    sdr: on_wire(self.keys[0]),
                    keys: self.keys.drop_first(),
                    kbd_loaded: true,
                    ..self
                }).raised(icr::SP)
            }
        }
    }

    /// The chip after one E-clock.
    pub open spec fn eclock(self) -> CiaState {
        let timers = self.timer_a_stepped().timer_b_stepped(self.timer_a_underflows());
        if self.id == CiaId::A {
            timers.keyboard_stepped()
        } else {
            timers
        }
    }

    /// The chip after `n` E-clocks.
    pub open spec fn eclocks(self, n: nat) -> CiaState
        decreases n,
    {
        if n == 0 {
            self
        } else {
            self.eclocks((n - 1) as nat).eclock()
        }
    }

    /// The chip after `cpu_clocks` CPU cycles.
    pub open spec fn ticked(self, cpu_clocks: u32, per_eclock: u32) -> CiaState {
        let total = (self.carry + cpu_clocks) as u32;
        (CiaState { carry: total % per_eclock, ..self }).eclocks((total / per_eclock) as nat)
    }
}

/// A CIA out of reset. CIA-A PRA bit 0 (OVL) is high, which is what puts ROM
/// at `$000000` until the OS clears it.
pub open spec fn reset_state(id: CiaId) -> CiaState {
    CiaState {
        id,
        pra: if id == CiaId::A {
            0x01
        } else {
            0x00
        },
        prb: 0,
        ddra: 0,
        ddrb: 0,
        pra_input: 0xFF,
        prb_input: 0xFF,
        timer_a: 0xFFFF,
        timer_b: 0xFFFF,
        latch_a: 0xFFFF,
        latch_b: 0xFFFF,
        cra: 0,
        crb: 0,
        tod: 0,
        tod_alarm: 0,
        tod_latched: None,
        tod_stopped: false,
        tod_matching: true,
        icr_mask: 0,
        icr_data: 0,
        sdr: 0,
        keys: Seq::empty(),
        kbd_delay: 0,
        kbd_loaded: false,
        carry: 0,
    }
}

/// One 8520.
pub struct Cia {
    pub id: CiaId,
    /// Output latches: the last value written. Only whether a latch drives
    /// its pin (and so is what a read sees) depends on the direction.
    pub pra: u8,
    pub prb: u8,
    pub ddra: u8,
    pub ddrb: u8,
    /// External pin levels for the bits configured as inputs. Idle-high out
    /// of reset.
    pub pra_input: u8,
    pub prb_input: u8,
    /// Timer A/B current values and latches.
    pub timer_a: u16,
    pub timer_b: u16,
    pub latch_a: u16,
    pub latch_b: u16,
    pub cra: u8,
    pub crb: u8,
    /// 24-bit TOD counter and its alarm.
    pub tod: u32,
    pub tod_alarm: u32,
    /// A coherent snapshot, held from a read of the high byte until the low
    /// byte is read.
    pub tod_latched: Option<u32>,
    /// Writing TODHI stops the counter until TODLO is written again.
    pub tod_stopped: bool,
    /// Edge detector for the alarm comparator.
    pub tod_matching: bool,
    /// Interrupt control: `icr_mask` is the enable, `icr_data` the pending
    /// sources. Reading ICR returns the data and clears it.
    pub icr_mask: u8,
    pub icr_data: u8,
    /// Serial data register. On CIA-A this is the keyboard path.
    pub sdr: u8,
    /// Host key events waiting to be clocked in through the serial port.
    pub keyboard_queue: Ring<u8, KEYBOARD_QUEUE_LEN>,
    /// E-clock ticks remaining before the next queued keycode lands in SDR,
    /// 0 when no delay is in flight.
    pub kbd_delay: u16,
    /// True while SDR holds a keycode the OS has not yet acknowledged by
    /// reading SDR. Blocks feeding the next queued code.
    pub kbd_loaded: bool,
    /// CPU-clock remainder carried between `tick` calls.
    pub carry: u32,
}

impl View for Cia {
    type V = CiaState;

    open spec fn view(&self) -> CiaState {
        CiaState {
            id: self.id,
            pra: self.pra,
            prb: self.prb,
            ddra: self.ddra,
            ddrb: self.ddrb,
            pra_input: self.pra_input,
            prb_input: self.prb_input,
            timer_a: self.timer_a,
            timer_b: self.timer_b,
            latch_a: self.latch_a,
            latch_b: self.latch_b,
            cra: self.cra,
            crb: self.crb,
            tod: self.tod,
            tod_alarm: self.tod_alarm,
            tod_latched: self.tod_latched,
            tod_stopped: self.tod_stopped,
            tod_matching: self.tod_matching,
            icr_mask: self.icr_mask,
            icr_data: self.icr_data,
            sdr: self.sdr,
            keys: self.keyboard_queue@,
            kbd_delay: self.kbd_delay,
            kbd_loaded: self.kbd_loaded,
            carry: self.carry,
        }
    }
}

impl Cia {
    pub fn new(id: CiaId) -> (cia: Self)
        ensures
            cia@ == reset_state(id),
    {
        Self {
            id,
            pra: if id == CiaId::A {
                0x01
            } else {
                0x00
            },
            prb: 0,
            ddra: 0,
            ddrb: 0,
            pra_input: 0xFF,
            prb_input: 0xFF,
            timer_a: 0xFFFF,
            timer_b: 0xFFFF,
            latch_a: 0xFFFF,
            latch_b: 0xFFFF,
            cra: 0,
            crb: 0,
            tod: 0,
            tod_alarm: 0,
            tod_latched: None,
            tod_stopped: false,
            tod_matching: true,
            icr_mask: 0,
            icr_data: 0,
            sdr: 0,
            keyboard_queue: Ring::new(0),
            kbd_delay: 0,
            kbd_loaded: false,
            carry: 0,
        }
    }

    /// True while this CIA-A is asserting the ROM overlay (PRA bit 0).
    /// Never on CIA-B.
    pub fn ovl_asserted(&self) -> (asserted: bool)
        ensures
            asserted == (self@.id == CiaId::A && self@.pra & 0x01 != 0),
    {
        self.id == CiaId::A && self.pra & 0x01 != 0
    }

    /// Read a register (0-15; higher bits are ignored).
    ///
    /// A port bit configured as output reads back the output latch; one
    /// configured as input reads the external pin. Reading SDR unblocks the
    /// next queued keycode. Reading ICR returns the pending sources with IR
    /// in bit 7, then clears them and drops the interrupt line.
    pub fn read(&mut self, reg: u8) -> (value: u8)
        ensures
            (value, final(self)@) == old(self)@.reg_read(reg),
    {
        match reg % 16 {
            reg::PRA => (self.pra & self.ddra) | (self.pra_input & !self.ddra),
            reg::PRB => (self.prb & self.ddrb) | (self.prb_input & !self.ddrb),
            reg::DDRA => self.ddra,
            reg::DDRB => self.ddrb,
            reg::TALO => be::split16(self.timer_a).1,
            reg::TAHI => be::split16(self.timer_a).0,
            reg::TBLO => be::split16(self.timer_b).1,
            reg::TBHI => be::split16(self.timer_b).0,
            reg::SDR => {
                self.kbd_loaded = false;
                self.sdr
            },
            reg::ICR => {
                let mut value: u8 = self.icr_data;
                if self.icr_data & self.icr_mask != 0 {
                    value = value | (1u8 << icr::IR);
                }
                self.icr_data = 0;
                value
            },
            reg::CRA => self.cra,
            reg::CRB => self.crb,
            reg::TODLO | reg::TODMID | reg::TODHI => self.read_tod(reg % 16),
            _ => 0xFF,
        }
    }

    /// Write a register (0-15; higher bits are ignored).
    ///
    /// Writing a timer's high byte while it is stopped reloads the counter
    /// at once, and in one-shot mode also starts it: timer.device programs
    /// one-shot intervals by the two latch bytes alone.
    pub fn write(&mut self, reg: u8, value: u8)
        ensures
            final(self)@ == old(self)@.reg_written(reg, value),
    {
        match reg % 16 {
            reg::PRA => self.pra = value,
            reg::PRB => self.prb = value,
            reg::DDRA => self.ddra = value,
            reg::DDRB => self.ddrb = value,
            reg::TALO => self.latch_a = be::join16(be::split16(self.latch_a).0, value),
            reg::TAHI => {
                self.latch_a = be::join16(value, be::split16(self.latch_a).1);
                if self.cra & CRA_RUNMODE != 0 {
                    self.timer_a = self.latch_a;
                    self.cra = self.cra | CRA_START;
                } else if self.cra & CRA_START == 0 {
                    self.timer_a = self.latch_a;
                }
            },
            reg::TBLO => self.latch_b = be::join16(be::split16(self.latch_b).0, value),
            reg::TBHI => {
                self.latch_b = be::join16(value, be::split16(self.latch_b).1);
                if self.crb & CRB_RUNMODE != 0 {
                    self.timer_b = self.latch_b;
                    self.crb = self.crb | CRB_START;
                } else if self.crb & CRB_START == 0 {
                    self.timer_b = self.latch_b;
                }
            },
            reg::SDR => self.sdr = value,
            reg::ICR => {
                let bits: u8 = value & 0x1F;
                if value & 0x80 != 0 {
                    self.icr_mask = self.icr_mask | bits;
                } else {
                    self.icr_mask = self.icr_mask & !bits;
                }
            },
            reg::CRA => {
                self.cra = value & !CRA_LOAD;
                if value & CRA_LOAD != 0 {
                    self.timer_a = self.latch_a;
                }
            },
            reg::CRB => {
                self.crb = value & !CRB_LOAD;
                if value & CRB_LOAD != 0 {
                    self.timer_b = self.latch_b;
                }
            },
            reg::TODLO | reg::TODMID | reg::TODHI => self.write_tod(reg % 16, value),
            _ => {},
        }
    }

    /// Raise an ICR source.
    pub fn raise(&mut self, bit: u8)
        requires
            bit < 8,
        ensures
            final(self)@ == old(self)@.raised(bit),
    {
        self.icr_data = self.icr_data | (1u8 << bit);
    }

    /// True while this CIA is requesting an interrupt.
    pub fn irq_pending(&self) -> (requesting: bool)
        ensures
            requesting == self@.requesting(),
    {
        self.icr_data & self.icr_mask != 0
    }

    /// Queue a raw Amiga keycode to be clocked in through the CIA-A serial
    /// port. Dropped if the queue is full.
    pub fn queue_keycode(&mut self, raw: u8)
        ensures
            final(self)@ == (CiaState {
                keys: if old(self)@.keys.len() < KEYBOARD_QUEUE_LEN {
                    old(self)@.keys.push(raw)
                } else {
                    old(self)@.keys
                },
                ..old(self)@
            }),
    {
        let _ = self.keyboard_queue.push(raw);
    }

    /// Pop the next queued keycode, if any.
    pub fn next_keycode(&mut self) -> (raw: Option<u8>)
        ensures
            raw == (if old(self)@.keys.len() == 0 {
                None
            } else {
                Some(old(self)@.keys[0])
            }),
            final(self)@ == (CiaState {
                keys: if old(self)@.keys.len() == 0 {
                    old(self)@.keys
                } else {
                    old(self)@.keys.drop_first()
                },
                ..old(self)@
            }),
    {
        self.keyboard_queue.pop()
    }

    /// Advance TOD by one tick and fire ALRM on a match. Called at the rate
    /// the hardware wires TOD to: vertical blank for CIA-A, horizontal line
    /// rate for CIA-B.
    pub fn tod_tick(&mut self)
        ensures
            final(self)@ == old(self)@.tod_ticked(),
    {
        if self.tod_stopped {
            return;
        }
        self.tod = ((self.tod as u64 + 1) % 0x100_0000) as u32;
        self.check_tod_alarm();
    }

    /// Advance the CIA by `cpu_clocks` CPU cycles, converting to E-clock
    /// ticks internally. Returns true while an interrupt is requested.
    pub fn tick(&mut self, cpu_clocks: u32, cpu_clocks_per_eclock: u32) -> (requesting: bool)
        requires
            cpu_clocks_per_eclock > 0,
            old(self).carry + cpu_clocks <= u32::MAX,
        ensures
            final(self)@ == old(self)@.ticked(cpu_clocks, cpu_clocks_per_eclock),
            requesting == final(self)@.requesting(),
            final(self)@.carry == (old(self).carry + cpu_clocks) % cpu_clocks_per_eclock as int,
            final(self)@.carry < cpu_clocks_per_eclock,
    {
        let total: u32 = self.carry + cpu_clocks;
        let eclocks: u32 = total / cpu_clocks_per_eclock;
        self.carry = total % cpu_clocks_per_eclock;
        proof {
            vstd::arithmetic::div_mod::lemma_mod_bound(total as int, cpu_clocks_per_eclock as int);
        }
        self.tick_eclock(eclocks);
        self.irq_pending()
    }

    /// Advance timers and the keyboard serial handshake by whole E-clock
    /// ticks. TOD is not driven from here; see `tod_tick`.
    fn tick_eclock(&mut self, ticks: u32)
        ensures
            final(self)@ == old(self)@.eclocks(ticks as nat),
            final(self)@.carry == old(self)@.carry,
    {
        let mut i: u32 = 0;
        while i < ticks
            invariant
                i <= ticks,
                self@ == old(self)@.eclocks(i as nat),
                self@.carry == old(self)@.carry,
            decreases ticks - i,
        {
            self.tick_one_eclock();
            i += 1;
        }
    }

    fn tick_one_eclock(&mut self)
        ensures
            final(self)@ == old(self)@.eclock(),
            final(self)@.carry == old(self)@.carry,
    {
        let mut ta_underflow = false;
        if self.cra & CRA_START != 0 && self.cra & CRA_INMODE == 0 {
            if self.timer_a == 0 {
                ta_underflow = true;
                self.timer_a = self.latch_a;
                self.raise(icr::TA);
                if self.cra & CRA_RUNMODE != 0 {
                    self.cra = self.cra & !CRA_START;
                }
            } else {
                self.timer_a = self.timer_a - 1;
            }
        }
        assert(self@ == old(self)@.timer_a_stepped());

        let inmode: u8 = self.crb / 32 % 4;
        let counts = inmode == 0 || inmode >= 2 && ta_underflow;
        if self.crb & CRB_START != 0 && counts {
            if self.timer_b == 0 {
                self.timer_b = self.latch_b;
                self.raise(icr::TB);
                if self.crb & CRB_RUNMODE != 0 {
                    self.crb = self.crb & !CRB_START;
                }
            } else {
                self.timer_b = self.timer_b - 1;
            }
        }
        assert(self@ == old(self)@.timer_a_stepped().timer_b_stepped(ta_underflow));

        if self.id == CiaId::A {
            self.tick_keyboard();
        }
    }

    /// Feed queued keycodes into SDR through the same shape of delay a real
    /// handshake has.
    fn tick_keyboard(&mut self)
        ensures
            final(self)@ == old(self)@.keyboard_stepped(),
            final(self)@.carry == old(self)@.carry,
    {
        if self.cra & CRA_SPMODE != 0 {
            // Software is driving the handshake pulse; do not race it.
            return;
        }
        if self.kbd_delay == 0 && !self.kbd_loaded && self.keyboard_queue.len() > 0 {
            self.kbd_delay = KEYBOARD_HANDSHAKE_TICKS;
        }
        if self.kbd_delay > 0 {
            self.kbd_delay = self.kbd_delay - 1;
            if self.kbd_delay == 0 {
                match self.next_keycode() {
                    Some(raw) => {
                        self.sdr = encode_keyboard_byte(raw);
                        self.kbd_loaded = true;
                        self.raise(icr::SP);
                    },
                    None => {},
                }
            }
        }
    }

    /// Reading TODHI latches the whole 24-bit value so later reads return a
    /// coherent snapshot even if TOD ticks in between; the latch releases
    /// only when TODLO is read.
    fn read_tod(&mut self, which: u8) -> (value: u8)
        requires
            which == reg::TODLO || which == reg::TODMID || which == reg::TODHI,
        ensures
            (value, final(self)@) == old(self)@.reg_read(which),
    {
        let snapshot: u32 = match self.tod_latched {
            Some(value) => value,
            None => self.tod,
        };
        match which {
            reg::TODLO => {
                self.tod_latched = None;
                (snapshot % 256) as u8
            },
            reg::TODMID => (snapshot / 256 % 256) as u8,
            _ => {
                self.tod_latched = Some(snapshot);
                (snapshot / 65536 % 256) as u8
            },
        }
    }

    fn write_tod(&mut self, which: u8, value: u8)
        requires
            which == reg::TODLO || which == reg::TODMID || which == reg::TODHI,
        ensures
            final(self)@ == old(self)@.tod_written(which, value),
    {
        if self.crb & CRB_ALARM != 0 {
            self.tod_alarm = set_tod_byte(self.tod_alarm, which, value);
        } else {
            self.tod = set_tod_byte(self.tod, which, value);
            match which {
                reg::TODHI => self.tod_stopped = true,
                reg::TODLO => self.tod_stopped = false,
                _ => {},
            }
        }
        self.check_tod_alarm();
    }

    /// Edge-detect the alarm comparator.
    fn check_tod_alarm(&mut self)
        ensures
            final(self)@ == old(self)@.alarm_checked(),
    {
        let equal = self.tod == self.tod_alarm;
        if equal && !self.tod_matching {
            self.raise(icr::ALRM);
        }
        self.tod_matching = equal;
    }
}

fn set_tod_byte(value: u32, which: u8, byte: u8) -> (updated: u32)
    ensures
        updated == with_tod_byte(value, which, byte),
{
    match which {
        reg::TODLO => value / 256 % 65536 * 256 + byte as u32,
        reg::TODMID => value / 65536 % 256 * 65536 + byte as u32 * 256 + value % 256,
        _ => byte as u32 * 65536 + value % 65536,
    }
}

/// Encode a raw Amiga keycode as the keyboard transmits it: rotated left one
/// bit, then inverted.
pub fn encode_keyboard_byte(raw: u8) -> (wire: u8)
    ensures
        wire == on_wire(raw),
{
    0xFF - (raw % 128 * 2 + raw / 128)
}

} // verus!
