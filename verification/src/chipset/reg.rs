//! Register offsets within `$DFF000`, as the hardware numbers them.

use vstd::prelude::*;

verus! {

pub const BLTDDAT: u16 = 0x000;

pub const DMACONR: u16 = 0x002;

pub const VPOSR: u16 = 0x004;

pub const VHPOSR: u16 = 0x006;

pub const JOY0DAT: u16 = 0x00A;

pub const JOY1DAT: u16 = 0x00C;

pub const ADKCONR: u16 = 0x010;

pub const POTGOR: u16 = 0x016;

pub const SERDATR: u16 = 0x018;

pub const DSKBYTR: u16 = 0x01A;

pub const INTENAR: u16 = 0x01C;

pub const INTREQR: u16 = 0x01E;

pub const DSKPTH: u16 = 0x020;

pub const DSKPTL: u16 = 0x022;

pub const DSKLEN: u16 = 0x024;

pub const VPOSW: u16 = 0x02A;

pub const VHPOSW: u16 = 0x02C;

pub const SERDAT: u16 = 0x030;

pub const SERPER: u16 = 0x032;

pub const POTGO: u16 = 0x034;

pub const COP1LCH: u16 = 0x080;

pub const COP1LCL: u16 = 0x082;

pub const COP2LCH: u16 = 0x084;

pub const COP2LCL: u16 = 0x086;

pub const COPJMP1: u16 = 0x088;

pub const COPJMP2: u16 = 0x08A;

pub const DIWSTRT: u16 = 0x08E;

pub const DIWSTOP: u16 = 0x090;

pub const DDFSTRT: u16 = 0x092;

pub const DDFSTOP: u16 = 0x094;

pub const DMACON: u16 = 0x096;

pub const INTENA: u16 = 0x09A;

pub const INTREQ: u16 = 0x09C;

pub const ADKCON: u16 = 0x09E;

pub const BPL1PTH: u16 = 0x0E0;

pub const BPLCON0: u16 = 0x100;

pub const BPLCON1: u16 = 0x102;

pub const BPLCON2: u16 = 0x104;

pub const BPL1MOD: u16 = 0x108;

pub const BPL2MOD: u16 = 0x10A;

pub const COLOR00: u16 = 0x180;

pub const COLOR31: u16 = 0x1BE;

} // verus!
