//! Register offsets within `$DFF000` that belong to the blitter.

use vstd::prelude::*;

verus! {

/// Blitter destination data, readable.
pub const BLTDDAT: u16 = 0x000;

pub const BLTCON0: u16 = 0x040;

pub const BLTCON1: u16 = 0x042;

pub const BLTAFWM: u16 = 0x044;

pub const BLTALWM: u16 = 0x046;

pub const BLTCPTH: u16 = 0x048;

pub const BLTCPTL: u16 = 0x04A;

pub const BLTBPTH: u16 = 0x04C;

pub const BLTBPTL: u16 = 0x04E;

pub const BLTAPTH: u16 = 0x050;

pub const BLTAPTL: u16 = 0x052;

pub const BLTDPTH: u16 = 0x054;

pub const BLTDPTL: u16 = 0x056;

pub const BLTSIZE: u16 = 0x058;

pub const BLTCON0L: u16 = 0x05A;

pub const BLTSIZV: u16 = 0x05C;

pub const BLTSIZH: u16 = 0x05E;

pub const BLTCMOD: u16 = 0x060;

pub const BLTBMOD: u16 = 0x062;

pub const BLTAMOD: u16 = 0x064;

pub const BLTDMOD: u16 = 0x066;

pub const BLTCDAT: u16 = 0x070;

pub const BLTBDAT: u16 = 0x072;

pub const BLTADAT: u16 = 0x074;

/// True for any offset the blitter owns, so the bus can route it here
/// instead of to the general chipset register file.
pub fn is_blitter(offset: u16) -> (owned: bool)
    ensures
        owned == (offset == BLTDDAT || BLTCON0 <= offset <= BLTDMOD || BLTCDAT <= offset
            <= BLTADAT),
{
    matches!(offset, BLTDDAT | BLTCON0..=BLTDMOD | BLTCDAT..=BLTADAT)
}

} // verus!
