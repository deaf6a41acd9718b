//! `INT_ENABLE`/`INT_STATUS` bit positions. `MGMT_COMPLETE` is defined but
//! never raised: there is no management plane.

use vstd::prelude::*;

verus! {

pub const XFER_COMPLETE: u8 = 0x01;

pub const MGMT_COMPLETE: u8 = 0x02;

pub const MEDIA_CHANGE: u8 = 0x04;

} // verus!
