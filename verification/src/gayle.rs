//! Gayle and its A1200 IDE interface.
//!
//! The interface is present in the address map and quiet: its windows are
//! recognised, its status reports a ready drive and its interrupt gating
//! works, while its registers read open bus and take no writes.

use crate::OPEN_BUS_BYTE;
use vstd::prelude::*;

pub mod cmd;
pub mod reg;
pub mod status;

pub use crate::block::{BlockDevice, SECTOR_BYTES};

verus! {

/// Base of the Gayle register window, `$DA0000`-`$DAFFFF`.
pub const GAYLE_BASE: u32 = 0x00DA_0000;

pub const GAYLE_END: u32 = 0x00DB_0000;

/// The Gayle ID register window, `$DE1000`-`$DE1FFF`.
pub const GAYLE_ID_BASE: u32 = 0x00DE_1000;

pub const GAYLE_ID_END: u32 = 0x00DE_2000;

/// Gayle interrupt-request bit 7: the IDE interrupt.
pub const GAYLE_IRQ_IDE: u8 = 0x80;

/// The ID an A1200's Gayle reports.
pub const GAYLE_ID: u8 = 0xD0;

/// Gayle's register file and the IDE task file behind it.
///
/// Holds no backing store of its own: [`Gayle::read`] and [`Gayle::write`]
/// take the [`BlockDevice`] from the caller.
#[derive(Clone, Copy)]
pub struct Gayle {
    /// Task-file registers.
    pub error: u8,
    pub nsector: u8,
    pub sector: u8,
    pub lcyl: u8,
    pub hcyl: u8,
    pub select: u8,
    pub status: u8,
    /// Gayle interrupt request and enable.
    pub intreq: u8,
    pub intena: u8,
}

/// Ready and seek-complete with nothing in flight, which is what a drive
/// with no command outstanding reports.
pub open spec fn idle_gayle() -> Gayle {
    Gayle {
        error: 0,
        nsector: 0,
        sector: 0,
        lcyl: 0,
        hcyl: 0,
        select: 0,
        status: status::DRDY | status::DSC,
        intreq: 0,
        intena: 0,
    }
}

impl Default for Gayle {
    fn default() -> (gayle: Self)
        ensures
            gayle == idle_gayle(),
    {
        Self::new()
    }
}

impl Gayle {
    pub fn new() -> (gayle: Self)
        ensures
            gayle == idle_gayle(),
    {
        Self {
            error: 0,
            nsector: 0,
            sector: 0,
            lcyl: 0,
            hcyl: 0,
            select: 0,
            status: status::DRDY | status::DSC,
            intreq: 0,
            intena: 0,
        }
    }

    /// Whether Gayle is asserting its interrupt, which the bus routes on to
    /// INT2 (`PORTS`) as the A1200 wires it.
    pub fn irq_pending(&self) -> (asserted: bool)
        ensures
            asserted == (self.intreq & self.intena & GAYLE_IRQ_IDE != 0),
    {
        self.intreq & self.intena & GAYLE_IRQ_IDE != 0
    }

    /// True for any address Gayle answers, so the bus can route it here
    /// rather than to the open-bus rule.
    pub fn responds_to(address: u32) -> (inside: bool)
        ensures
            inside == (GAYLE_BASE <= address < GAYLE_END || GAYLE_ID_BASE <= address
                < GAYLE_ID_END),
    {
        GAYLE_BASE <= address && address < GAYLE_END || GAYLE_ID_BASE <= address && address
            < GAYLE_ID_END
    }

    /// Read a Gayle or IDE register: open bus.
    pub fn read(&mut self, _address: u32, _device: Option<&mut dyn BlockDevice>) -> (value: u8)
        ensures
            *final(self) == *old(self),
            value == OPEN_BUS_BYTE,
    {
        OPEN_BUS_BYTE
    }

    /// Write a Gayle or IDE register: discarded.
    pub fn write(&mut self, _address: u32, _value: u8, _device: Option<&mut dyn BlockDevice>)
        ensures
            *final(self) == *old(self),
    {
    }
}

} // verus!
