//! Interrupt bit numbers in `INTENA`/`INTREQ`.

use vstd::prelude::*;

verus! {

/// CIA-A / ports, 68k level 2.
pub const PORTS: u16 = 3;

/// Vertical blank, 68k level 3.
pub const VERTB: u16 = 5;

/// CIA-B / external, 68k level 6.
pub const EXTER: u16 = 13;

/// Master interrupt enable (INTENA bit 14). Not an interrupt source.
pub const INTEN: u16 = 14;

/// Set/clear control bit, shared by INTENA/INTREQ/DMACON writes.
pub const SETCLR: u16 = 15;

} // verus!
