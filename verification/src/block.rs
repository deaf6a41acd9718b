//! The block-device seam shared by every storage device of this machine:
//! [`SECTOR_BYTES`] and the [`BlockDevice`] trait a device's register model
//! reads and writes sectors through.

use vstd::prelude::*;

verus! {

/// Bytes in one sector.
pub const SECTOR_BYTES: usize = 512;

/// One sector transfer as it happened: what was handed to the device or left
/// in the buffer by it, and whether it reported success.
#[verifier::ext_equal]
pub struct Transfer {
    pub is_write: bool,
    pub lba: u64,
    pub data: Seq<u8>,
    pub ok: bool,
}

/// The backing store behind a block device's register interface.
///
/// The host supplies the storage. Returning `false` from either transfer
/// method surfaces to the guest as a device error rather than a panic: the
/// guest controls the LBA and must not be able to fault the machine.
///
/// Nothing is assumed of how an implementation answers. `log` is the record
/// of every transfer it has been asked for, with its answers, and `sectors`
/// names the capacity it reports. A verified implementation overrides both;
/// one in ordinary Rust need not name them.
pub trait BlockDevice {
    /// The capacity that `sector_count` reports.
    open spec fn sectors(&self) -> u64 {
        arbitrary()
    }

    /// Every transfer so far, in order.
    open spec fn log(&self) -> Seq<Transfer> {
        arbitrary()
    }

    /// Total addressable sectors.
    fn sector_count(&self) -> (count: u64)
        ensures
            count == self.sectors(),
    ;

    /// Read one sector. `false` reports a device error to the guest.
    fn read_sector(&mut self, lba: u64, buf: &mut [u8; SECTOR_BYTES]) -> (ok: bool)
        ensures
            final(self).log() == old(self).log().push(
                Transfer { is_write: false, lba, data: final(buf)@, ok },
            ),
    ;

    /// Write one sector. `false` reports a device error to the guest.
    fn write_sector(&mut self, lba: u64, buf: &[u8; SECTOR_BYTES]) -> (ok: bool)
        ensures
            final(self).log() == old(self).log().push(
                Transfer { is_write: true, lba, data: buf@, ok },
            ),
    ;
}

/// What a record of transfers says a sector holds: the data of the last
/// write to it. Nothing is known before the first, nor after one that
/// failed.
pub open spec fn last_written(log: Seq<Transfer>, lba: u64) -> Option<Seq<u8>>
    decreases log.len(),
{
    if log.len() == 0 {
        None
    } else if log.last().is_write && log.last().lba == lba {
        if log.last().ok {
            Some(log.last().data)
        } else {
            None
        }
    } else {
        last_written(log.drop_last(), lba)
    }
}

/// Whether a record is that of a device that keeps what is written to it:
/// every successful read returns what its sector is known to hold.
pub open spec fn keeps_data(log: Seq<Transfer>) -> bool {
    forall|i: int|
        0 <= i < log.len() && !(#[trigger] log[i]).is_write && log[i].ok && last_written(
            log.take(i),
            log[i].lba,
        ) is Some ==> log[i].data == last_written(log.take(i), log[i].lba)->0
}

/// Transfers that write nothing to a sector leave what it is known to hold.
pub proof fn untouched_sectors_keep_their_data(log: Seq<Transfer>, more: Seq<Transfer>, lba: u64)
    requires
        forall|i: int|
            0 <= i < more.len() ==> !((#[trigger] more[i]).is_write && more[i].lba == lba),
    ensures
        last_written(log + more, lba) == last_written(log, lba),
    decreases more.len(),
{
    if more.len() == 0 {
        assert(log + more =~= log);
    } else {
        assert((log + more).drop_last() =~= log + more.drop_last());
        assert((log + more).last() == more.last());
        assert(!(more[more.len() - 1].is_write && more[more.len() - 1].lba == lba));
        untouched_sectors_keep_their_data(log, more.drop_last(), lba);
    }
}

} // verus!
