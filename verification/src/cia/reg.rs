//! Register indices within a CIA, as the hardware numbers them.

use vstd::prelude::*;

verus! {

pub const PRA: u8 = 0x0;

pub const PRB: u8 = 0x1;

pub const DDRA: u8 = 0x2;

pub const DDRB: u8 = 0x3;

pub const TALO: u8 = 0x4;

pub const TAHI: u8 = 0x5;

pub const TBLO: u8 = 0x6;

pub const TBHI: u8 = 0x7;

pub const TODLO: u8 = 0x8;

pub const TODMID: u8 = 0x9;

pub const TODHI: u8 = 0xA;

pub const SDR: u8 = 0xC;

pub const ICR: u8 = 0xD;

pub const CRA: u8 = 0xE;

pub const CRB: u8 = 0xF;

} // verus!
