//! Firmware block storage: which disk to serve, and how its native blocks
//! make up 512-byte sectors.
//!
//! Firmware presents a handle per disk and per partition, with nothing to
//! tell which one to serve. So a disk is identified positively, by the
//! `RDSK` signature of an Amiga Rigid Disk Block in its first sectors, never
//! by order, size or guesswork, and every handle looked at leaves a line
//! saying what became of it.

use crate::block::{BlockDevice, Transfer, SECTOR_BYTES};
use crate::board::text;
use vstd::prelude::*;

verus! {

/// How many leading sectors to scan for the signature: a Rigid Disk Block
/// lives somewhere in a disk's first 16 blocks.
pub const RDB_LOCATION_LIMIT: u64 = 16;

/// Why a medium's geometry cannot be translated to 512-byte sectors.
#[derive(Clone, Copy, PartialEq, Eq, Debug, Structural)]
pub enum GeometryError {
    /// The medium reports a block size of 0.
    ZeroBlockSize,
    /// The block size is neither a multiple nor a divisor of 512.
    Untranslatable(u32),
}

impl GeometryError {
    /// The reason in words.
    pub open spec fn text(self) -> Seq<char> {
        match self {
            GeometryError::ZeroBlockSize => "reports a block size of 0"@,
            GeometryError::Untranslatable(size) => "block size "@ + text::decimal(size as nat)
                + " is neither a clean multiple nor a clean divisor of 512 -- refusing to guess how to translate it"@,
        }
    }

    /// The reason in words.
    pub fn reason(&self) -> (reason: String)
        ensures
            reason@ == self.text(),
    {
        match *self {
            GeometryError::ZeroBlockSize => "reports a block size of 0".to_owned(),
            GeometryError::Untranslatable(size) => {
                let mut reason = "block size ".to_owned();
                text::push_decimal(&mut reason, size as u64);
                reason.append(
                    " is neither a clean multiple nor a clean divisor of 512 -- refusing to guess how to translate it",
                );
                reason
            },
        }
    }
}

/// Whether blocks of this size can make up 512-byte sectors.
pub open spec fn translatable(block_size: u32) -> bool {
    block_size != 0 && (block_size % 512 == 0 || 512u32 % block_size == 0)
}

/// How many sectors `native_blocks` blocks of a translatable size hold.
pub open spec fn sectors_of(block_size: u32, native_blocks: nat) -> nat {
    if block_size >= 512 {
        native_blocks * (block_size / 512) as nat
    } else {
        native_blocks / (512u32 / block_size) as nat
    }
}

/// Where a sector lives on the medium.
#[derive(Clone, Copy, PartialEq, Eq, Debug, Structural)]
pub enum Access {
    /// Past the end: refuse the transfer.
    Refused,
    /// The sector is exactly the native blocks from `native_lba` on that 512
    /// bytes span: transfer them directly.
    Direct { native_lba: u64 },
    /// The sector is the 512 bytes at `offset` within native block
    /// `native_lba`: go through that whole block.
    Within { native_lba: u64, offset: usize },
}

/// A firmware block medium seen as 512-byte sectors.
///
/// Blocks of 512 bytes pass through. Larger ones hold several sectors, and a
/// write is read-modify-write over the block that contains it. Smaller ones
/// make up a sector between them.
pub struct EfiBlockDevice {
    pub media_id: u32,
    pub native_block_size: u64,
    pub native_blocks: u64,
    /// How many sectors live inside one native block, `1` when that is 512
    /// bytes or smaller.
    pub sectors_per_native: u64,
    /// How many native blocks make up one sector, `1` when a native block is
    /// 512 bytes or larger.
    pub natives_per_sector: u64,
    pub sectors: u64,
    /// One native block, for the read-modify-write path only.
    pub scratch: Vec<u8>,
}

impl EfiBlockDevice {
    /// The fields describe one translatable geometry.
    pub open spec fn wf(self) -> bool {
        &&& 0 < self.native_block_size <= u32::MAX
        &&& translatable(self.native_block_size as u32)
        &&& self.sectors == sectors_of(self.native_block_size as u32, self.native_blocks as nat)
        &&& self.sectors_per_native == if self.native_block_size > 512 {
            self.native_block_size / 512
        } else {
            1
        }
        &&& self.natives_per_sector == if self.native_block_size < 512 {
            512u64 / self.native_block_size
        } else {
            1
        }
        &&& self.scratch@.len() == if self.native_block_size > 512 {
            self.native_block_size as nat
        } else {
            0
        }
    }

    /// Take a medium with `last_block` as the address of its last block, or
    /// say why its geometry cannot be translated.
    pub fn new(media_id: u32, block_size: u32, last_block: u64) -> (device: Result<
        Self,
        GeometryError,
    >)
        requires
            last_block < u64::MAX,
            translatable(block_size) ==> sectors_of(block_size, (last_block + 1) as nat)
                <= u64::MAX,
        ensures
            block_size == 0 <==> device == Err::<EfiBlockDevice, GeometryError>(
                GeometryError::ZeroBlockSize,
            ),
            block_size != 0 && !translatable(block_size) <==> device == Err::<
                EfiBlockDevice,
                GeometryError,
            >(GeometryError::Untranslatable(block_size)),
            translatable(block_size) <==> device is Ok,
            device matches Ok(d) ==> {
                &&& d.wf()
                &&& d.media_id == media_id
                &&& d.native_block_size == block_size
                &&& d.native_blocks == last_block + 1
                &&& d.sectors == sectors_of(block_size, (last_block + 1) as nat)
            },
    {
        if block_size == 0 {
            return Err(GeometryError::ZeroBlockSize);
        }
        let native_blocks: u64 = last_block + 1;
        if block_size == 512 {
            assert(native_blocks as nat * 1 == native_blocks) by (nonlinear_arith);
            return Ok(
                EfiBlockDevice {
                    media_id,
                    native_block_size: 512,
                    native_blocks,
                    sectors_per_native: 1,
                    natives_per_sector: 1,
                    sectors: native_blocks,
                    scratch: Vec::new(),
                },
            );
        }
        if block_size > 512 && block_size % 512 == 0 {
            let per: u64 = (block_size / 512) as u64;
            return Ok(
                EfiBlockDevice {
                    media_id,
                    native_block_size: block_size as u64,
                    native_blocks,
                    sectors_per_native: per,
                    natives_per_sector: 1,
                    sectors: native_blocks * per,
                    scratch: vec![0u8; block_size as usize],
                },
            );
        }
        if block_size < 512 && 512 % block_size == 0 {
            proof {
                lemma_divisor(block_size);
            }
            let per: u64 = (512 / block_size) as u64;
            return Ok(
                EfiBlockDevice {
                    media_id,
                    native_block_size: block_size as u64,
                    native_blocks,
                    sectors_per_native: 1,
                    natives_per_sector: per,
                    sectors: native_blocks / per,
                    scratch: Vec::new(),
                },
            );
        }
        proof {
            if block_size > 512 {
                vstd::arithmetic::div_mod::lemma_small_mod(512, block_size as nat);
            }
        }
        Err(GeometryError::Untranslatable(block_size))
    }

    /// The medium's own block size.
    pub fn native_block_size(&self) -> (size: u64)
        ensures
            size == self.native_block_size,
    {
        self.native_block_size
    }

    /// How many sectors the medium holds.
    pub fn sector_count(&self) -> (count: u64)
        ensures
            count == self.sectors,
    {
        self.sectors
    }

    /// How to reach sector `lba`. Whatever the answer, the native blocks it
    /// names are on the medium and hold exactly the medium's bytes from
    /// `512 * lba` on.
    pub fn access(&self, lba: u64) -> (access: Access)
        requires
            self.wf(),
        ensures
            (access == Access::Refused) == (lba >= self.sectors),
            access matches Access::Direct { native_lba } ==> {
                &&& self.native_block_size <= 512
                &&& native_lba * self.native_block_size == 512 * lba
                &&& native_lba + self.natives_per_sector <= self.native_blocks
                &&& self.natives_per_sector * self.native_block_size == 512
            },
            access matches Access::Within { native_lba, offset } ==> {
                &&& self.native_block_size > 512
                &&& native_lba * self.native_block_size + offset == 512 * lba
                &&& native_lba < self.native_blocks
                &&& offset + 512 <= self.native_block_size
                &&& self.scratch@.len() == self.native_block_size
            },
    {
        if lba >= self.sectors {
            return Access::Refused;
        }
        if self.natives_per_sector > 1 {
            let ghost (b, n, l) = (
                self.native_block_size as int,
                self.natives_per_sector as int,
                lba as int,
            );
            proof {
                lemma_divisor(self.native_block_size as u32);
                lemma_small_blocks(b, n, self.native_blocks as int, l);
            }
            return Access::Direct { native_lba: lba * self.natives_per_sector };
        }
        if self.sectors_per_native == 1 {
            proof {
                if self.native_block_size < 512 {
                    lemma_divisor(self.native_block_size as u32);
                }
                lemma_whole_blocks(self.native_block_size as u32);
                assert(self.native_blocks as nat * 1 == self.native_blocks) by (nonlinear_arith);
            }
            return Access::Direct { native_lba: lba };
        }
        proof {
            if self.native_block_size < 512 {
                lemma_divisor(self.native_block_size as u32);
            }
            lemma_whole_blocks(self.native_block_size as u32);
            lemma_large_blocks(
                self.native_block_size as int,
                self.sectors_per_native as int,
                self.native_blocks as int,
                lba as int,
            );
        }
        let native_lba: u64 = lba / self.sectors_per_native;
        let offset: usize = ((lba % self.sectors_per_native) * 512) as usize;
        Access::Within { native_lba, offset }
    }

    /// Take a sector out of the native block in `scratch`.
    pub fn extract(&self, offset: usize, buf: &mut [u8; SECTOR_BYTES])
        requires
            offset + 512 <= self.scratch@.len(),
        ensures
            final(buf)@ == self.scratch@.subrange(offset as int, offset + 512),
    {
        assert(self.scratch.len() == self.scratch@.len());
        let mut i: usize = 0;
        while i < SECTOR_BYTES
            invariant
                i <= 512,
                offset + 512 <= usize::MAX,
                offset + 512 <= self.scratch@.len(),
                forall|j: int| 0 <= j < i ==> (#[trigger] buf@[j]) == self.scratch@[offset + j],
            decreases 512 - i,
        {
            buf[i] = self.scratch[offset + i];
            i += 1;
        }
        assert(buf@ =~= self.scratch@.subrange(offset as int, offset + 512));
    }

    /// Put a sector into its place in the native block in `scratch`.
    pub fn splice(&mut self, offset: usize, buf: &[u8; SECTOR_BYTES])
        requires
            offset + 512 <= old(self).scratch@.len(),
        ensures
            final(self).scratch@ == spliced(old(self).scratch@, offset as int, buf@),
            *final(self) == (EfiBlockDevice { scratch: final(self).scratch, ..*old(self) }),
    {
        assert(self.scratch.len() == self.scratch@.len());
        let mut i: usize = 0;
        while i < SECTOR_BYTES
            invariant
                i <= 512,
                offset + 512 <= usize::MAX,
                offset + 512 <= self.scratch@.len(),
                self.scratch@.len() == old(self).scratch@.len(),
                forall|j: int|
                    0 <= j < self.scratch@.len() ==> (#[trigger] self.scratch@[j]) == if offset
                        <= j < offset + i {
                        buf@[j - offset]
                    } else {
                        old(self).scratch@[j]
                    },
                *self == (EfiBlockDevice { scratch: self.scratch, ..*old(self) }),
            decreases 512 - i,
        {
            self.scratch[offset + i] = buf[i];
            i += 1;
        }
        assert(self.scratch@ =~= spliced(old(self).scratch@, offset as int, buf@));
    }
}

/// A byte sequence with `data` put in at `offset`.
pub open spec fn spliced(bytes: Seq<u8>, offset: int, data: Seq<u8>) -> Seq<u8> {
    Seq::new(
        bytes.len(),
        |i: int|
            if offset <= i < offset + data.len() {
                data[i - offset]
            } else {
                bytes[i]
            },
    )
}

/// A divisor of 512 divides it without remainder.
proof fn lemma_divisor(size: u32)
    requires
        0 < size < 512,
        translatable(size),
    ensures
        (512u32 / size) * size == 512,
        512u32 / size > 1,
        512u64 / size as u64 == 512u32 / size,
{
    vstd::arithmetic::div_mod::lemma_fundamental_div_mod(512, size as int);
    vstd::arithmetic::mul::lemma_mul_is_commutative(size as int, 512int / size as int);
    vstd::arithmetic::div_mod::lemma_small_mod(size as nat, 512);
    assert(512int / (size as int) > 1) by (nonlinear_arith)
        requires
            size * (512int / (size as int)) == 512,
            0 < size < 512,
    ;
}

/// A multiple of 512 is 512 times its quotient.
proof fn lemma_whole_blocks(size: u32)
    requires
        size >= 512,
        translatable(size),
    ensures
        512 * (size / 512) == size,
{
    if size > 512 {
        vstd::arithmetic::div_mod::lemma_small_mod(512, size as nat);
    }
}

/// Sector to block arithmetic for blocks smaller than a sector.
proof fn lemma_small_blocks(block: int, per: int, blocks: int, lba: int)
    requires
        per * block == 512,
        per > 0,
        0 <= lba < blocks / per,
    ensures
        (lba * per) * block == 512 * lba,
        lba * per + per <= blocks,
{
    vstd::arithmetic::div_mod::lemma_fundamental_div_mod(blocks, per);
    vstd::arithmetic::div_mod::lemma_mod_bound(blocks, per);
    assert((lba * per) * block == 512 * lba) by (nonlinear_arith)
        requires
            per * block == 512,
    ;
    assert(lba * per + per <= blocks) by (nonlinear_arith)
        requires
            blocks == per * (blocks / per) + blocks % per,
            blocks % per >= 0,
            lba < blocks / per,
            per > 0,
    ;
}

/// Sector to block arithmetic for blocks larger than a sector.
proof fn lemma_large_blocks(block: int, per: int, blocks: int, lba: int)
    requires
        block == 512 * per,
        per > 0,
        0 <= lba < blocks * per,
    ensures
        (lba / per) * block + (lba % per) * 512 == 512 * lba,
        0 <= lba / per < blocks,
        0 <= (lba % per) * 512,
        (lba % per) * 512 + 512 <= block,
{
    vstd::arithmetic::div_mod::lemma_fundamental_div_mod(lba, per);
    vstd::arithmetic::div_mod::lemma_mod_bound(lba, per);
    vstd::arithmetic::div_mod::lemma_div_pos_is_pos(lba, per);
    assert((lba / per) * block == 512 * (per * (lba / per))) by (nonlinear_arith)
        requires
            block == 512 * per,
    ;
    assert(lba / per < blocks) by (nonlinear_arith)
        requires
            lba == per * (lba / per) + lba % per,
            lba % per >= 0,
            lba < blocks * per,
            per > 0,
    ;
}

/// What the medium holds of one sector.
pub open spec fn sector_bytes(medium: Seq<u8>, lba: u64) -> Seq<u8> {
    medium.subrange(512 * lba, 512 * lba + 512)
}

/// Reading a native block and taking the sector out of it gives the
/// medium's own 512 bytes at that sector.
pub proof fn extracted_sector_is_the_medium_s(
    medium: Seq<u8>,
    block_size: int,
    native_lba: int,
    offset: int,
    lba: u64,
)
    requires
        0 <= native_lba,
        0 <= offset,
        offset + 512 <= block_size,
        native_lba * block_size + offset == 512 * lba,
        native_lba * block_size + block_size <= medium.len(),
        native_lba * block_size >= 0,
    ensures
        medium.subrange(
            native_lba * block_size,
            native_lba * block_size + block_size,
        ).subrange(offset, offset + 512) == sector_bytes(medium, lba),
{
    assert(medium.subrange(native_lba * block_size, native_lba * block_size + block_size).subrange(
        offset,
        offset + 512,
    ) =~= sector_bytes(medium, lba));
}

/// Writing back a native block with the sector spliced in changes that
/// sector of the medium and nothing else.
pub proof fn spliced_sector_disturbs_nothing_else(
    medium: Seq<u8>,
    block_size: int,
    native_lba: int,
    offset: int,
    lba: u64,
    data: Seq<u8>,
)
    requires
        data.len() == 512,
        0 <= native_lba,
        0 <= offset,
        offset + 512 <= block_size,
        native_lba * block_size + offset == 512 * lba,
        native_lba * block_size + block_size <= medium.len(),
        native_lba * block_size >= 0,
    ensures
        ({
            let start = native_lba * block_size;
            let block = medium.subrange(start, start + block_size);
            spliced(medium, start, spliced(block, offset, data)) == spliced(
                medium,
                512 * lba,
                data,
            )
        }),
{
    let start = native_lba * block_size;
    let block = medium.subrange(start, start + block_size);
    assert(spliced(medium, start, spliced(block, offset, data)) =~= spliced(
        medium,
        512 * lba,
        data,
    ));
}

/// Whether a sector starts with the Rigid Disk Block signature.
pub open spec fn is_rdb(sector: Seq<u8>) -> bool {
    sector[0] == 0x52 && sector[1] == 0x44 && sector[2] == 0x53 && sector[3] == 0x4B
}

/// Whether a sector starts with `RDSK`.
pub fn has_rdb_signature(sector: &[u8; SECTOR_BYTES]) -> (found: bool)
    ensures
        found == is_rdb(sector@),
{
    sector[0] == 0x52 && sector[1] == 0x44 && sector[2] == 0x53 && sector[3] == 0x4B
}

/// Whether a transfer is a successful read of a Rigid Disk Block.
pub open spec fn hits(transfer: Transfer) -> bool {
    transfer.ok && is_rdb(transfer.data)
}

/// Whether these are the reads of a scan: the sectors from 0 on, in order,
/// none before the last one a hit.
pub open spec fn is_scan(asked: Seq<Transfer>) -> bool {
    forall|i: int|
        0 <= i < asked.len() ==> {
            &&& !(#[trigger] asked[i]).is_write
            &&& asked[i].lba == i
            &&& i + 1 < asked.len() ==> !hits(asked[i])
        }
}

/// How many sectors a scan looks at.
pub open spec fn scan_limit(sectors: u64) -> u64 {
    if sectors < RDB_LOCATION_LIMIT {
        sectors
    } else {
        RDB_LOCATION_LIMIT
    }
}

/// Look for a Rigid Disk Block in a device's first sectors. A sector that
/// cannot be read is passed over.
pub fn find_rdb<D: BlockDevice + ?Sized>(device: &mut D) -> (found: Option<u64>)
    ensures
        exists|asked: Seq<Transfer>|
            {
                &&& #[trigger] is_scan(asked)
                &&& final(device).log() == old(device).log() + asked
                &&& asked.len() <= scan_limit(old(device).sectors())
                &&& match found {
                    Some(lba) => asked.len() == lba + 1 && hits(asked.last()),
                    None => asked.len() == scan_limit(old(device).sectors()) && (asked.len() > 0
                        ==> !hits(asked.last())),
                }
            },
{
    let count: u64 = device.sector_count();
    let limit: u64 = if count < RDB_LOCATION_LIMIT {
        count
    } else {
        RDB_LOCATION_LIMIT
    };
    let mut probe: [u8; SECTOR_BYTES] = [0;SECTOR_BYTES];
    let mut lba: u64 = 0;
    let ghost mut asked: Seq<Transfer> = Seq::empty();
    assert(device.log() =~= old(device).log() + asked);
    while lba < limit
        invariant
            lba <= limit,
            limit == scan_limit(old(device).sectors()),
            asked.len() == lba,
            is_scan(asked),
            lba > 0 ==> !hits(asked.last()),
            device.log() == old(device).log() + asked,
        decreases limit - lba,
    {
        let ghost before = asked;
        let ok = device.read_sector(lba, &mut probe);
        proof {
            asked = before.push(Transfer { is_write: false, lba, data: probe@, ok });
            assert(device.log() =~= old(device).log() + asked);
            assert(is_scan(asked)) by {
                assert forall|i: int| 0 <= i < asked.len() implies {
                    &&& !(#[trigger] asked[i]).is_write
                    &&& asked[i].lba == i
                    &&& i + 1 < asked.len() ==> !hits(asked[i])
                } by {
                    if i < lba {
                        assert(asked[i] == before[i]);
                    }
                }
            }
        }
        if ok && has_rdb_signature(&probe) {
            return Some(lba);
        }
        lba += 1;
    }
    None
}

/// What became of one firmware handle.
pub enum HandleProbe {
    /// Its block protocol could not be opened, with the firmware's reason.
    Unopenable { reason: String },
    /// It has no medium.
    NoMedia { is_partition: bool },
    /// Its geometry cannot be translated.
    Unusable { is_partition: bool, block_size: u32, error: GeometryError },
    /// Its first sectors were scanned.
    Scanned {
        is_partition: bool,
        native_block_size: u64,
        sectors: u64,
        found_at: Option<u64>,
    },
}

/// What a handle stands for.
pub open spec fn kind_text(is_partition: bool) -> Seq<char> {
    if is_partition {
        "logical partition"@
    } else {
        "whole disk"@
    }
}

/// The words for what a handle stands for.
fn kind(is_partition: bool) -> (kind: &'static str)
    ensures
        kind@ == kind_text(is_partition),
{
    if is_partition {
        "logical partition"
    } else {
        "whole disk"
    }
}

impl HandleProbe {
    /// Whether this handle is the disk to serve.
    pub open spec fn serves(self) -> bool {
        self matches HandleProbe::Scanned { found_at: Some(_), .. }
    }

    /// The log line for this handle.
    pub open spec fn text(self, index: usize) -> Seq<char> {
        let lead = "storage: handle "@ + text::decimal(index as nat);
        match self {
            HandleProbe::Unopenable { reason } => lead + ": could not open BlockIO ("@ + reason@
                + ") -- skipped"@,
            HandleProbe::NoMedia { is_partition } => lead + ": "@ + kind_text(is_partition)
                + ", no media present -- skipped"@,
            HandleProbe::Unusable { is_partition, block_size, error } => lead + ": "@ + kind_text(
                is_partition,
            ) + ", block size "@ + text::decimal(block_size as nat) + " bytes -- "@ + error.text()
                + " -- skipped"@,
            HandleProbe::Scanned { is_partition, native_block_size, sectors, found_at } => {
                let geometry = lead + ": "@ + kind_text(is_partition) + ", native block size "@
                    + text::decimal(native_block_size as nat) + " bytes, "@ + text::decimal(
                    sectors as nat,
                ) + " 512-byte sectors -- "@;
                match found_at {
                    Some(lba) => geometry + "'RDSK' signature found at sector "@ + text::decimal(
                        lba as nat,
                    ) + " -- serving this to hostblk"@,
                    None => geometry + "no 'RDSK' signature in the first "@ + text::decimal(
                        scan_limit(sectors) as nat,
                    ) + " sectors -- not a candidate"@,
                }
            },
        }
    }

    /// The log line for this handle.
    pub fn describe(&self, index: usize) -> (line: String)
        ensures
            line@ == self.text(index),
    {
        let mut line = "storage: handle ".to_owned();
        text::push_decimal(&mut line, index as u64);
        match self {
            HandleProbe::Unopenable { reason } => {
                line.append(": could not open BlockIO (");
                line.append(reason.as_str());
                line.append(") -- skipped");
            },
            HandleProbe::NoMedia { is_partition } => {
                line.append(": ");
                line.append(kind(*is_partition));
                line.append(", no media present -- skipped");
            },
            HandleProbe::Unusable { is_partition, block_size, error } => {
                line.append(": ");
                line.append(kind(*is_partition));
                line.append(", block size ");
                text::push_decimal(&mut line, *block_size as u64);
                line.append(" bytes -- ");
                let reason = error.reason();
                line.append(reason.as_str());
                line.append(" -- skipped");
            },
            HandleProbe::Scanned { is_partition, native_block_size, sectors, found_at } => {
                line.append(": ");
                line.append(kind(*is_partition));
                line.append(", native block size ");
                text::push_decimal(&mut line, *native_block_size);
                line.append(" bytes, ");
                text::push_decimal(&mut line, *sectors);
                line.append(" 512-byte sectors -- ");
                match found_at {
                    Some(lba) => {
                        line.append("'RDSK' signature found at sector ");
                        text::push_decimal(&mut line, *lba);
                        line.append(" -- serving this to hostblk");
                    },
                    None => {
                        let limit: u64 = if *sectors < RDB_LOCATION_LIMIT {
                            *sectors
                        } else {
                            RDB_LOCATION_LIMIT
                        };
                        line.append("no 'RDSK' signature in the first ");
                        text::push_decimal(&mut line, limit);
                        line.append(" sectors -- not a candidate");
                    },
                }
            },
        }
        line
    }
}

/// A scan over the firmware's handles: the handle to serve, if one was
/// identified, and a line for every handle looked at.
pub struct RdbScan {
    pub device: Option<usize>,
    pub log: Vec<String>,
}

/// What a scan holds: the handle to serve, and the log's lines as text.
#[verifier::ext_equal]
pub struct ScanState {
    pub device: Option<usize>,
    pub lines: Seq<Seq<char>>,
}

impl ScanState {
    /// The scan after a handle is recorded.
    pub open spec fn reported(self, index: usize, probe: HandleProbe) -> ScanState {
        ScanState {
            device: if probe.serves() {
                Some(index)
            } else {
                self.device
            },
            lines: self.lines.push(probe.text(index)),
        }
    }

    /// The scan after it is closed.
    pub open spec fn finished(self) -> ScanState {
        ScanState {
            device: self.device,
            lines: if self.device is None {
                self.lines.push(nothing_found())
            } else {
                self.lines
            },
        }
    }
}

impl View for RdbScan {
    type V = ScanState;

    open spec fn view(&self) -> ScanState {
        ScanState { device: self.device, lines: self.lines() }
    }
}

impl RdbScan {
    /// The log's lines as text.
    pub open spec fn lines(self) -> Seq<Seq<char>> {
        self.log@.map_values(|line: String| line@)
    }

    /// A scan that has not looked at anything yet.
    pub fn new() -> (scan: Self)
        ensures
            scan.device is None,
            scan.lines() == Seq::<Seq<char>>::empty(),
    {
        let scan = RdbScan { device: None, log: Vec::new() };
        assert(scan.lines() =~= Seq::empty());
        scan
    }

    /// The whole outcome when the firmware has no block handles at all, with
    /// its reason.
    pub fn no_handles(error: &str) -> (scan: Self)
        ensures
            scan.device is None,
            scan.lines() == seq![
                "storage: no EFI_BLOCK_IO_PROTOCOL handles found at all ("@ + error@ + ")"@,
            ],
    {
        let mut scan = RdbScan::new();
        let mut line = "storage: no EFI_BLOCK_IO_PROTOCOL handles found at all (".to_owned();
        line.append(error);
        line.append(")");
        scan.log.push(line);
        assert(scan.lines() =~= seq![
            "storage: no EFI_BLOCK_IO_PROTOCOL handles found at all ("@ + error@ + ")"@,
        ]);
        scan
    }

    /// Record what became of handle `index`. Returns whether to go on to the
    /// next one: the first handle with a signature ends the scan.
    pub fn report(&mut self, index: usize, probe: &HandleProbe) -> (go_on: bool)
        ensures
            go_on == !probe.serves(),
            final(self)@ == old(self)@.reported(index, *probe),
    {
        self.log.push(probe.describe(index));
        assert(self.lines() =~= old(self).lines().push(probe.text(index)));
        match probe {
            HandleProbe::Scanned { found_at: Some(_), .. } => {
                self.device = Some(index);
                false
            },
            _ => true,
        }
    }

    /// Close the scan: if nothing was found, say so.
    pub fn finish(&mut self)
        ensures
            final(self)@ == old(self)@.finished(),
    {
        if self.device.is_none() {
            self.log.push(
                "storage: no Amiga RDB disk found on any EFI_BLOCK_IO_PROTOCOL handle -- continuing with no drive attached".to_owned(),
            );
            assert(self.lines() =~= old(self).lines().push(nothing_found()));
        }
    }
}

/// The closing line of a scan that found nothing.
pub open spec fn nothing_found() -> Seq<char> {
    "storage: no Amiga RDB disk found on any EFI_BLOCK_IO_PROTOCOL handle -- continuing with no drive attached"@
}

/// Which handle a run over the handles ends up serving: the first whose
/// probe found a signature.
pub open spec fn first_served(probes: Seq<HandleProbe>) -> Option<usize>
    decreases probes.len(),
{
    if probes.len() == 0 {
        None
    } else {
        match first_served(probes.drop_last()) {
            Some(index) => Some(index),
            None => if probes.last().serves() {
                Some((probes.len() - 1) as usize)
            } else {
                None
            },
        }
    }
}

/// A run over the handles: the probes are reported in order, with their
/// positions, to a scan that starts out empty, until one says not to go on.
/// The scan, and whether it would still go on.
pub open spec fn scan_run(probes: Seq<HandleProbe>) -> (ScanState, bool)
    decreases probes.len(),
{
    if probes.len() == 0 {
        (ScanState { device: None, lines: Seq::empty() }, true)
    } else {
        let (scan, go_on) = scan_run(probes.drop_last());
        if go_on {
            let index = (probes.len() - 1) as usize;
            (scan.reported(index, probes.last()), !probes.last().serves())
        } else {
            (scan, false)
        }
    }
}

/// How many handles a run looks at: up to and including the first match.
pub open spec fn looked_at(probes: Seq<HandleProbe>) -> int {
    match first_served(probes) {
        Some(index) => index + 1,
        None => probes.len() as int,
    }
}

/// A run over the handles ends with the first match as the handle to serve,
/// and stops there; it logs one line for every handle it looked at, and once
/// closed says so if it found nothing.
pub proof fn a_scan_serves_the_first_match(probes: Seq<HandleProbe>)
    requires
        probes.len() <= usize::MAX,
    ensures
        ({
            let (scan, go_on) = scan_run(probes);
            &&& scan.device == first_served(probes)
            &&& go_on == (first_served(probes) is None)
            &&& scan.lines == Seq::new(
                looked_at(probes) as nat,
                |i: int| probes[i].text(i as usize),
            )
            &&& scan.finished().device == first_served(probes)
            &&& scan.finished().lines == (if first_served(probes) is None {
                scan.lines.push(nothing_found())
            } else {
                scan.lines
            })
        }),
    decreases probes.len(),
{
    let logged = Seq::new(looked_at(probes) as nat, |i: int| probes[i].text(i as usize));
    if probes.len() > 0 {
        let rest = probes.drop_last();
        a_scan_serves_the_first_match(rest);
        first_match_wins(rest);
        assert(scan_run(probes).0.lines =~= logged);
    } else {
        assert(scan_run(probes).0.lines =~= logged);
    }
}

/// The first match wins, and only a positively identified disk is ever
/// served.
pub proof fn first_match_wins(probes: Seq<HandleProbe>)
    requires
        probes.len() <= usize::MAX,
    ensures
        match first_served(probes) {
            Some(index) => {
                &&& index < probes.len()
                &&& probes[index as int].serves()
                &&& forall|i: int| 0 <= i < index ==> !(#[trigger] probes[i]).serves()
            },
            None => forall|i: int| 0 <= i < probes.len() ==> !(#[trigger] probes[i]).serves(),
        },
    decreases probes.len(),
{
    if probes.len() > 0 {
        let rest = probes.drop_last();
        first_match_wins(rest);
        assert forall|i: int| 0 <= i < rest.len() implies probes[i] == #[trigger] rest[i] by {}
        match first_served(rest) {
            Some(index) => {
                assert(probes[index as int] == rest[index as int]);
                assert forall|i: int| 0 <= i < index implies !(#[trigger] probes[i]).serves() by {
                    assert(probes[i] == rest[i]);
                }
            },
            None => {
                assert forall|i: int| 0 <= i < rest.len() implies !(
                #[trigger] probes[i]).serves() by {
                    assert(probes[i] == rest[i]);
                }
            },
        }
    }
}

/// The sectors of a medium are its whole 512-byte runs: together they take
/// no more than the medium's bytes, and less than one sector is left over.
pub proof fn sectors_make_up_the_medium(block_size: u32, native_blocks: nat)
    requires
        translatable(block_size),
    ensures
        ({
            let bytes = native_blocks * block_size;
            let sectors = sectors_of(block_size, native_blocks);
            512 * sectors <= bytes < 512 * sectors + 512
        }),
{
    let sectors = sectors_of(block_size, native_blocks);
    if block_size >= 512 {
        lemma_whole_blocks(block_size);
        let per = (block_size / 512) as int;
        assert(512 * (native_blocks * per) == native_blocks * block_size) by (nonlinear_arith)
            requires
                512 * per == block_size,
        ;
    } else {
        lemma_divisor(block_size);
        let per = (512u32 / block_size) as int;
        let n = native_blocks as int;
        vstd::arithmetic::div_mod::lemma_fundamental_div_mod(n, per);
        vstd::arithmetic::div_mod::lemma_mod_bound(n, per);
        let (q, r) = (n / per, n % per);
        assert(n * block_size == 512 * q + r * block_size) by (nonlinear_arith)
            requires
                n == per * q + r,
                per * block_size == 512,
        ;
        assert(0 <= r * block_size < 512) by (nonlinear_arith)
            requires
                0 <= r < per,
                per * block_size == 512,
                block_size > 0,
        ;
    }
}

/// The signature is the four letters `RDSK`, and only a medium's first
/// sixteen sectors are looked at for it.
pub proof fn the_signature_is_four_letters(sector: Seq<u8>, sectors: u64)
    ensures
        is_rdb(sector) <==> sector[0] as char == 'R' && sector[1] as char == 'D' && sector[2] as char
            == 'S' && sector[3] as char == 'K',
        scan_limit(sectors) <= 16,
        scan_limit(sectors) <= sectors,
        scan_limit(sectors) == 16 || scan_limit(sectors) == sectors,
{
}

} // verus!
