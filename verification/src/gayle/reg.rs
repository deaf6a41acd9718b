//! IDE task-file and Gayle registers, as the A1200 maps them. Each
//! task-file register sits four bytes apart.

use vstd::prelude::*;

verus! {

pub const IDE_DATA: u32 = 0x00DA_2000;

pub const IDE_ERROR: u32 = 0x00DA_2004;

pub const IDE_NSECTOR: u32 = 0x00DA_2008;

pub const IDE_SECTOR: u32 = 0x00DA_200C;

pub const IDE_LCYL: u32 = 0x00DA_2010;

pub const IDE_HCYL: u32 = 0x00DA_2014;

pub const IDE_SELECT: u32 = 0x00DA_2018;

pub const IDE_STATUS: u32 = 0x00DA_201C;

/// Gayle interrupt status; bit 7 is the IDE interrupt.
pub const GAYLE_INTREQ: u32 = 0x00DA_9000;

/// Gayle interrupt enable.
pub const GAYLE_INTENA: u32 = 0x00DA_A000;

/// Gayle status/credit register.
pub const GAYLE_STATUS: u32 = 0x00DA_8000;

} // verus!
