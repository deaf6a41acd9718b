//! `hostblk`, the native block storage card.
//!
//! A doorbell-plus-descriptor Zorro III card whose data path is a host-side
//! copy directly into and out of guest RAM, with asynchronous completion
//! over INT2.
//!
//! The guest builds a small fixed-layout [`Descriptor`] in its own RAM and
//! writes its address to the doorbell. The doorbell write only queues that
//! address: reading the descriptor, validating it, moving data and calling
//! the [`BlockDevice`] all happen in [`Hostblk::tick`], which executes at
//! most one submission per call. The result (error code, bytes moved) never
//! touches guest memory: it rides the completion queue, which the driver
//! reads through registers.
//!
//! # Depth and overflow
//!
//! A doorbell write while the submission ring is full is dropped and
//! counted. Completions are never dropped: `tick` does nothing at all while
//! the completion queue is full, so an undrained queue stalls the engine
//! rather than losing a request.
//!
//! # Hostile input
//!
//! Every descriptor field and the pointer to it are guest-supplied. Each is
//! rejected with its own error code before any host I/O runs, and every
//! rejection still produces a completion.

use crate::autoconfig::{BoardSpec, ERTF_DIAGVALID, ERT_ZORROIII};
use crate::be;
use crate::block::{BlockDevice, Transfer, SECTOR_BYTES};
use crate::fastram::{ERFF_EXTENDED, ERFF_ZORRO_III};
use crate::memory;
use crate::memory::{GuestMemory, GuestRam};
use crate::ring::Ring;
use crate::slot;
use vstd::prelude::*;

pub mod cmd;
pub mod err;
pub mod laws;
pub mod reg;
pub mod request_laws;

verus! {

/// The manufacturer number reserved for test use.
pub const MANUFACTURER: u16 = 0x07DB;

/// This card's product number under [`MANUFACTURER`].
pub const PRODUCT: u8 = 1;

/// The Zorro III AUTOCONFIG window: 16 MB, extended-table code 0.
pub const WINDOW_BYTES: u32 = 0x0100_0000;

/// Where the DiagArea boot ROM is mapped within this board's own window,
/// well clear of the register file.
pub const ROM_BASE: u32 = 0x1000;

/// Byte offset, from the start of the DiagArea's RAM copy, of the scratch
/// cell its entry point writes the protocol version into: the first byte
/// past the DiagArea header.
pub const DIAG_MARKER_OFFSET: u32 = 14;

/// Units this card can address.
pub const UNIT_COUNT: usize = 8;

/// Outstanding doorbell writes this card holds before rejecting more.
pub const SUBMIT_QUEUE_CAPACITY: usize = 8;

/// Completed requests this card holds before the driver drains one.
pub const COMPLETION_QUEUE_CAPACITY: usize = 8;

/// Byte length of a [`Descriptor`] as it lies in guest RAM.
pub const DESC_LEN: u32 = 20;

/// The value the version register reports.
pub const PROTOCOL_VERSION: u32 = 1;

/// The fixed-layout structure a doorbell write names by address: `command`
/// (1 byte), `unit` (1), reserved (2), `length` (4), `offset` (8), `buffer`
/// (4), all big-endian.
#[derive(Clone, Copy, Debug, PartialEq, Eq, Structural)]
pub struct Descriptor {
    pub command: u8,
    pub unit: u8,
    /// Transfer length in bytes, a nonzero multiple of the sector size.
    pub length: u32,
    /// Byte offset into the unit's address space, a multiple of the sector
    /// size. 64-bit: filesystems address beyond 4 GB.
    pub offset: u64,
    /// Guest RAM address of the transfer buffer.
    pub buffer: u32,
}

/// One completion: the pointer the driver submitted, the result of
/// executing it, and the bytes moved.
#[derive(Clone, Copy, Debug, PartialEq, Eq, Structural)]
pub struct CompletionEntry {
    pub ptr: u32,
    pub error: u8,
    pub actual: u32,
}

/// The big-endian longword at `i` of a byte sequence.
pub open spec fn long_at(d: Seq<u8>, i: int) -> u32 {
    be::be32(be::be16(d[i], d[i + 1]), be::be16(d[i + 2], d[i + 3]))
}

/// The descriptor that 20 bytes of guest RAM spell.
pub open spec fn parsed(d: Seq<u8>) -> Descriptor {
    Descriptor {
        command: d[0],
        unit: d[1],
        length: long_at(d, 4),
        offset: (long_at(d, 8) * 0x1_0000_0000 + long_at(d, 12)) as u64,
        buffer: long_at(d, 16),
    }
}

/// The descriptor at an address of guest RAM.
pub open spec fn descriptor_at(ram: GuestRam, ptr: u32) -> Descriptor {
    parsed(ram.read(ptr, DESC_LEN as int))
}

impl Descriptor {
    /// Whether the command moves data.
    pub open spec fn moves_data(self) -> bool {
        self.command == cmd::READ || self.command == cmd::WRITE
    }

    pub open spec fn start_lba(self) -> int {
        (self.offset / 512) as int
    }

    pub open spec fn sector_count(self) -> int {
        (self.length / 512) as int
    }

    /// Why a transfer is rejected before the device or guest RAM is
    /// touched, if it is.
    pub open spec fn rejection(self, is_write: bool, write_protect: bool, total: u64) -> Option<
        u8,
    > {
        if is_write && write_protect {
            Some(err::WRITE_PROTECTED)
        } else if self.length == 0 || self.length % 512 != 0 {
            Some(err::INVALID_LENGTH)
        } else if self.offset % 512 != 0 {
            Some(err::MISALIGNED)
        } else if self.start_lba() + self.sector_count() > total {
            Some(err::OUT_OF_RANGE)
        } else {
            None
        }
    }
}

fn read_long(d: &[u8], i: usize) -> (value: u32)
    requires
        i + 4 <= d@.len(),
    ensures
        value == long_at(d@, i as int),
{
    be::join32(be::join16(d[i], d[i + 1]), be::join16(d[i + 2], d[i + 3]))
}

/// Parse a descriptor, field by field, out of its bytes.
pub fn parse_descriptor(d: &[u8]) -> (desc: Descriptor)
    requires
        d@.len() >= DESC_LEN,
    ensures
        desc == parsed(d@),
{
    Descriptor {
        command: d[0],
        unit: d[1],
        length: read_long(d, 4),
        offset: read_long(d, 8) as u64 * 0x1_0000_0000 + read_long(d, 12) as u64,
        buffer: read_long(d, 16),
    }
}

/// Validate a transfer against its unit. On success, the first sector and
/// the number of sectors.
pub fn plan_transfer(desc: &Descriptor, is_write: bool, write_protect: bool, total: u64) -> (plan:
    Result<(u64, u32), u8>)
    ensures
        match plan {
            Err(error) => desc.rejection(is_write, write_protect, total) == Some(error),
            Ok((start, count)) => desc.rejection(is_write, write_protect, total) is None && start
                == desc.start_lba() && count == desc.sector_count(),
        },
{
    if is_write && write_protect {
        return Err(err::WRITE_PROTECTED);
    }
    if desc.length == 0 || desc.length % SECTOR_BYTES as u32 != 0 {
        return Err(err::INVALID_LENGTH);
    }
    if desc.offset % SECTOR_BYTES as u64 != 0 {
        return Err(err::MISALIGNED);
    }
    let count: u32 = desc.length / SECTOR_BYTES as u32;
    let start: u64 = desc.offset / SECTOR_BYTES as u64;
    match start.checked_add(count as u64) {
        None => Err(err::OUT_OF_RANGE),
        Some(end) => if end > total {
            Err(err::OUT_OF_RANGE)
        } else {
            Ok((start, count))
        },
    }
}

/// The completion of a validated transfer of which `landed` of `count`
/// sectors went through.
pub open spec fn result(landed: int, count: int) -> (u8, u32) {
    (
        if landed == count {
            err::OK
        } else {
            err::IO_ERROR
        },
        (landed * 512) as u32,
    )
}

/// The completion of a validated transfer of which `landed` of `count`
/// sectors went through.
pub fn transfer_result(landed: u32, count: u32) -> (completion: (u8, u32))
    requires
        landed <= count,
        count * 512 <= u32::MAX,
    ensures
        completion == result(landed as int, count as int),
{
    let error: u8 = if landed == count {
        err::OK
    } else {
        err::IO_ERROR
    };
    (error, landed * 512)
}

/// How many sectors of a run of transfers went through: every one but a
/// failing last one.
pub open spec fn landed(asked: Seq<Transfer>) -> int {
    if asked.len() > 0 && !asked.last().ok {
        asked.len() - 1
    } else {
        asked.len() as int
    }
}

/// The bytes of the first `n` transfers, in order.
pub open spec fn delivered(asked: Seq<Transfer>, n: int) -> Seq<u8> {
    Seq::new((n * 512) as nat, |i: int| asked[i / 512].data[i % 512])
}

/// Whether `asked` is a run over `count` sectors from `start`: consecutive
/// sectors in order, all reads or all writes, up to the end or to the first
/// failure.
pub open spec fn is_run(asked: Seq<Transfer>, is_write: bool, start: int, count: int) -> bool {
    &&& asked.len() <= count
    &&& asked.len() < count ==> asked.len() > 0 && !asked.last().ok
    &&& forall|i: int|
        0 <= i < asked.len() ==> {
            &&& (#[trigger] asked[i]).is_write == is_write
            &&& asked[i].lba == start + i
            &&& asked[i].data.len() == SECTOR_BYTES
            &&& i + 1 < asked.len() ==> asked[i].ok
        }
}

/// Whether a run of writes hands over the sectors of `bytes`.
pub open spec fn hands_over(asked: Seq<Transfer>, bytes: Seq<u8>) -> bool {
    forall|i: int| 0 <= i < asked.len() ==> (#[trigger] asked[i]).data == sector_of(bytes, i)
}

/// Sector `i` of a run of bytes.
pub open spec fn sector_of(bytes: Seq<u8>, i: int) -> Seq<u8> {
    Seq::new(SECTOR_BYTES as nat, |j: int| bytes[i * 512 + j])
}

/// A single attached unit: the backing store plus per-unit state.
pub struct Unit<D> {
    pub device: D,
    pub write_protect: bool,
    pub change_count: u32,
}

/// What the card's registers and queues hold.
#[verifier::ext_equal]
pub struct HostblkState {
    pub unit_select: u8,
    pub doorbell_acc: u32,
    /// Submitted descriptor addresses, oldest first.
    pub submitted: Seq<u32>,
    pub submit_overflow: u32,
    /// Undrained completions, oldest first.
    pub completed: Seq<CompletionEntry>,
    pub int_enable: u8,
    pub diag_rom: Seq<u8>,
}

impl HostblkState {
    /// The completion at the head of the queue, all zero when it is empty.
    pub open spec fn head(self) -> CompletionEntry {
        if self.completed.len() == 0 {
            CompletionEntry { ptr: 0, error: 0, actual: 0 }
        } else {
            self.completed[0]
        }
    }

    /// The card after a descriptor address is submitted.
    pub open spec fn submit(self, ptr: u32) -> HostblkState {
        if self.submitted.len() < SUBMIT_QUEUE_CAPACITY {
            HostblkState { submitted: self.submitted.push(ptr), ..self }
        } else {
            HostblkState { submit_overflow: self.submit_overflow.wrapping_add(1), ..self }
        }
    }

    /// Whether a tick has a request to execute and room for its completion.
    pub open spec fn can_run(self) -> bool {
        self.submitted.len() > 0 && self.completed.len() < COMPLETION_QUEUE_CAPACITY
    }

    /// The card after its oldest submission completed with this result.
    pub open spec fn ran(self, error: u8, actual: u32) -> HostblkState {
        HostblkState {
            submitted: self.submitted.drop_first(),
            completed: self.completed.push(
                CompletionEntry { ptr: self.submitted[0], error, actual },
            ),
            ..self
        }
    }

    /// The card after a register write. The doorbell submits once its
    /// low-order byte lands.
    pub open spec fn reg_written(self, offset: u32, value: u8) -> HostblkState {
        if offset == reg::UNIT_SELECT + 3 {
            HostblkState { unit_select: value, ..self }
        } else if slot::holds(offset, reg::DOORBELL) {
            let acc = be::with_lane(self.doorbell_acc, offset - reg::DOORBELL, value);
            let latched = HostblkState { doorbell_acc: acc, ..self };
            if offset == reg::DOORBELL + 3 {
                latched.submit(acc)
            } else {
                latched
            }
        } else if offset == reg::COMPLETION_ADVANCE + 3 {
            HostblkState {
                completed: if self.completed.len() == 0 {
                    self.completed
                } else {
                    self.completed.drop_first()
                },
                ..self
            }
        } else if offset == reg::INT_ENABLE + 3 {
            HostblkState { int_enable: value, ..self }
        } else {
            self
        }
    }
}

/// A card out of reset that carries this boot ROM.
pub open spec fn reset_state(diag_rom: Seq<u8>) -> HostblkState {
    HostblkState {
        unit_select: 0,
        doorbell_acc: 0,
        submitted: Seq::empty(),
        submit_overflow: 0,
        completed: Seq::empty(),
        int_enable: 0,
        diag_rom,
    }
}

/// `hostblk`'s register file and transfer engine.
pub struct Hostblk<'a> {
    pub units: [Option<Unit<&'a mut (dyn BlockDevice + 'a)>>; UNIT_COUNT],
    pub unit_select: u8,
    /// Accumulates the four bytes of a doorbell write; submitted once the
    /// low-order lane lands.
    pub doorbell_acc: u32,
    pub submit_queue: Ring<u32, SUBMIT_QUEUE_CAPACITY>,
    pub submit_overflow: u32,
    pub completion_queue: Ring<CompletionEntry, COMPLETION_QUEUE_CAPACITY>,
    pub int_enable: u8,
    /// The DiagArea boot ROM served at [`ROM_BASE`].
    pub diag_rom: &'a [u8],
}

impl<'a> View for Hostblk<'a> {
    type V = HostblkState;

    open spec fn view(&self) -> HostblkState {
        HostblkState {
            unit_select: self.unit_select,
            doorbell_acc: self.doorbell_acc,
            submitted: self.submit_queue@,
            submit_overflow: self.submit_overflow,
            completed: self.completion_queue@,
            int_enable: self.int_enable,
            diag_rom: self.diag_rom@,
        }
    }
}

impl<'a> Hostblk<'a> {
    /// Whether there is such a unit and a device is attached to it.
    pub open spec fn attached(&self, unit: u8) -> bool {
        unit < UNIT_COUNT && self.units@[unit as int] is Some
    }

    /// The selected unit's capacity, zero when it is absent.
    pub open spec fn selected_sectors(&self) -> u64 {
        if self.attached(self.unit_select) {
            self.units@[self.unit_select as int]->0.device.sectors()
        } else {
            0
        }
    }

    /// What a register read returns.
    pub open spec fn reg_value(&self, offset: u32) -> u8 {
        let s = self@;
        let present = self.attached(s.unit_select);
        let unit = self.units@[s.unit_select as int]->0;
        if slot::holds(offset, reg::UNIT_SELECT) {
            slot::low_lane(offset, reg::UNIT_SELECT, s.unit_select)
        } else if slot::holds(offset, reg::UNIT_PRESENT) {
            slot::low_lane(
                offset,
                reg::UNIT_PRESENT,
                if present {
                    1
                } else {
                    0
                },
            )
        } else if slot::holds(offset, reg::UNIT_WRITE_PROTECT) {
            slot::low_lane(
                offset,
                reg::UNIT_WRITE_PROTECT,
                if present && unit.write_protect {
                    1
                } else {
                    0
                },
            )
        } else if slot::holds(offset, reg::UNIT_CHANGE_COUNT) {
            be::byte_lane(
                if present {
                    unit.change_count
                } else {
                    0
                },
                offset - reg::UNIT_CHANGE_COUNT,
            )
        } else if slot::holds(offset, reg::UNIT_SECTORS_HI) {
            be::byte_lane(
                (self.selected_sectors() / 0x1_0000_0000) as u32,
                offset - reg::UNIT_SECTORS_HI,
            )
        } else if slot::holds(offset, reg::UNIT_SECTORS_LO) {
            be::byte_lane(
                (self.selected_sectors() % 0x1_0000_0000) as u32,
                offset - reg::UNIT_SECTORS_LO,
            )
        } else if slot::holds(offset, reg::SUBMIT_OVERFLOW) {
            be::byte_lane(s.submit_overflow, offset - reg::SUBMIT_OVERFLOW)
        } else if slot::holds(offset, reg::COMPLETION_PTR) {
            be::byte_lane(s.head().ptr, offset - reg::COMPLETION_PTR)
        } else if slot::holds(offset, reg::COMPLETION_ERROR) {
            slot::low_lane(offset, reg::COMPLETION_ERROR, s.head().error)
        } else if slot::holds(offset, reg::COMPLETION_ACTUAL) {
            be::byte_lane(s.head().actual, offset - reg::COMPLETION_ACTUAL)
        } else if slot::holds(offset, reg::COMPLETION_COUNT) {
            be::byte_lane(s.completed.len() as u32, offset - reg::COMPLETION_COUNT)
        } else if slot::holds(offset, reg::INT_ENABLE) {
            slot::low_lane(offset, reg::INT_ENABLE, s.int_enable)
        } else if slot::holds(offset, reg::SUBMIT_CAPACITY) {
            be::byte_lane(SUBMIT_QUEUE_CAPACITY as u32, offset - reg::SUBMIT_CAPACITY)
        } else if slot::holds(offset, reg::VERSION) {
            be::byte_lane(PROTOCOL_VERSION, offset - reg::VERSION)
        } else if ROM_BASE <= offset && offset - ROM_BASE < s.diag_rom.len() {
            s.diag_rom[offset - ROM_BASE]
        } else {
            0
        }
    }

    /// Why the request at `ptr` is rejected before its device or guest RAM
    /// is touched, if it is.
    pub open spec fn rejection(&self, ptr: u32, ram: GuestRam) -> Option<u8> {
        if ptr % 4 != 0 || !ram.reachable(ptr, DESC_LEN) {
            Some(err::BAD_ADDRESS)
        } else {
            let desc = descriptor_at(ram, ptr);
            if !self.attached(desc.unit) {
                Some(err::BAD_UNIT)
            } else if desc.moves_data() {
                let unit = self.units@[desc.unit as int]->0;
                match desc.rejection(
                    desc.command == cmd::WRITE,
                    unit.write_protect,
                    unit.device.sectors(),
                ) {
                    Some(reason) => Some(reason),
                    None => if ram.reachable(desc.buffer, desc.length) {
                        None
                    } else {
                        Some(err::BAD_ADDRESS)
                    },
                }
            } else if desc.command == cmd::FLUSH {
                None
            } else {
                Some(err::INVALID_COMMAND)
            }
        }
    }

    /// Whether executing the request at `ptr` may ask these transfers of its
    /// unit's device. Only the device's answers are open: which sectors it
    /// is asked for, in which order, and what it is handed, is fixed.
    pub open spec fn may_ask(&self, ptr: u32, ram: GuestRam, asked: Seq<Transfer>) -> bool {
        let desc = descriptor_at(ram, ptr);
        if self.rejection(ptr, ram) is Some || desc.command == cmd::FLUSH {
            asked.len() == 0
        } else {
            let is_write = desc.command == cmd::WRITE;
            &&& is_run(asked, is_write, desc.start_lba(), desc.sector_count())
            &&& is_write ==> hands_over(asked, ram.read(desc.buffer, desc.length as int))
        }
    }

    /// How the request at `ptr` completes when these transfers are asked of
    /// its device: the error code and the bytes moved.
    pub open spec fn completion(&self, ptr: u32, ram: GuestRam, asked: Seq<Transfer>) -> (
        u8,
        u32,
    ) {
        let desc = descriptor_at(ram, ptr);
        match self.rejection(ptr, ram) {
            Some(error) => (error, 0),
            None => if desc.command == cmd::FLUSH {
                (err::OK, 0)
            } else {
                result(landed(asked), desc.sector_count())
            },
        }
    }

    /// Guest RAM after the request at `ptr`: a read stores what landed at
    /// the front of its buffer, nothing else changes anything.
    pub open spec fn ram_after(&self, ptr: u32, ram: GuestRam, asked: Seq<Transfer>) -> GuestRam {
        let desc = descriptor_at(ram, ptr);
        if self.rejection(ptr, ram) is None && desc.command == cmd::READ {
            ram.with(desc.buffer, delivered(asked, landed(asked)))
        } else {
            ram
        }
    }

    /// Whether these are the units after the request at `ptr`: its own unit's
    /// device has been asked these transfers and no more, and nothing else
    /// has changed.
    pub open spec fn units_after(
        &self,
        before: &Self,
        ptr: u32,
        ram: GuestRam,
        asked: Seq<Transfer>,
    ) -> bool {
        let unit = descriptor_at(ram, ptr).unit as int;
        &&& asked.len() == 0 ==> self.units == before.units
        &&& forall|i: int|
            0 <= i < UNIT_COUNT && i != unit ==> #[trigger] self.units@[i] == before.units@[i]
        &&& before.attached(unit as u8) ==> {
            &&& self.units@[unit] is Some
            &&& self.units@[unit]->0.write_protect == before.units@[unit]->0.write_protect
            &&& self.units@[unit]->0.change_count == before.units@[unit]->0.change_count
            &&& self.units@[unit]->0.device.log() == before.units@[unit]->0.device.log() + asked
        }
    }

    /// A card that serves this DiagArea boot ROM from its window, at
    /// [`ROM_BASE`].
    ///
    /// [`Hostblk::board_spec`] tells the operating system that there is a
    /// DiagArea, so a card that goes on the AUTOCONFIG chain needs an image
    /// of one: made with an empty slice, its ROM reads zero and it must not
    /// be put on the chain under that spec.
    pub fn new(diag_rom: &'a [u8]) -> (card: Self)
        ensures
            card@ == reset_state(diag_rom@),
            forall|i: int| 0 <= i < UNIT_COUNT ==> card.units@[i] is None,
    {
        let none = CompletionEntry { ptr: 0, error: 0, actual: 0 };
        Self {
            units: [None, None, None, None, None, None, None, None],
            unit_select: 0,
            doorbell_acc: 0,
            submit_queue: Ring::new(0),
            submit_overflow: 0,
            completion_queue: Ring::new(none),
            int_enable: 0,
            diag_rom,
        }
    }

    /// The `BoardSpec` this card registers on the AUTOCONFIG chain: one
    /// 16 MB Zorro III board with a DiagArea.
    pub fn board_spec() -> (spec: BoardSpec)
        ensures
            spec == (BoardSpec {
                board_type: ERT_ZORROIII | ERTF_DIAGVALID,
                product: PRODUCT,
                flags: ERFF_ZORRO_III | ERFF_EXTENDED,
                manufacturer: MANUFACTURER,
                serial: 0,
                init_diag_vec: ROM_BASE as u16,
                size_bytes: WINDOW_BYTES,
            }),
    {
        BoardSpec {
            board_type: ERT_ZORROIII | ERTF_DIAGVALID,
            product: PRODUCT,
            flags: ERFF_ZORRO_III | ERFF_EXTENDED,
            manufacturer: MANUFACTURER,
            serial: 0,
            init_diag_vec: ROM_BASE as u16,
            size_bytes: WINDOW_BYTES,
        }
    }

    /// Attach a disk to unit `unit`, optionally write-protected.
    /// Out-of-range units are silently ignored.
    pub fn attach_unit(
        &mut self,
        unit: u8,
        device: &'a mut (dyn BlockDevice + 'a),
        write_protect: bool,
    )
        ensures
            final(self)@ == old(self)@,
            unit < UNIT_COUNT ==> (final(self).units@[unit as int] matches Some(u) && u.device
                == device && u.write_protect == write_protect && u.change_count == 0),
            forall|i: int|
                0 <= i < UNIT_COUNT && i != unit ==> final(self).units@[i] == old(self).units@[i],
    {
        let attached = Some(Unit { device, write_protect, change_count: 0 });
        if (unit as usize) < UNIT_COUNT {
            self.units[unit as usize] = attached;
        }
    }

    /// Host-side hook for a media change. Bumps `unit`'s change counter;
    /// out-of-range or absent units do nothing.
    pub fn notify_media_change(&mut self, unit: u8)
        ensures
            final(self)@ == old(self)@,
            forall|i: int|
                0 <= i < UNIT_COUNT && i != unit ==> final(self).units@[i] == old(self).units@[i],
            !old(self).attached(unit) ==> final(self).units == old(self).units,
            old(self).attached(unit) ==> (final(self).units@[unit as int] matches Some(u)
                && u.device == old(self).units@[unit as int]->0.device && u.write_protect == old(self).units@[unit as int]->0.write_protect && u.change_count == old(self).units@[unit as int]->0.change_count.wrapping_add(1)),
    {
        if (unit as usize) < UNIT_COUNT {
            match &mut self.units[unit as usize] {
                Some(u) => u.change_count = u.change_count.wrapping_add(1),
                None => {},
            }
        }
    }

    /// Whether `hostblk` is asserting its interrupt, which the bus routes
    /// to INT2 (`PORTS`).
    pub fn irq_pending(&self) -> (asserted: bool)
        ensures
            asserted == (self@.int_enable != 0 && self@.completed.len() > 0),
    {
        self.int_enable != 0 && self.completion_queue.len() > 0
    }

    /// Read a byte of the register file, offset from this board's configured
    /// AUTOCONFIG base. Anything not named in [`reg`] or covered by the boot
    /// ROM, including the write-only registers, reads `0`.
    pub fn read(&self, offset: u32) -> (value: u8)
        ensures
            value == self.reg_value(offset),
    {
        if slot::in_slot(offset, reg::UNIT_SELECT) {
            slot::low_byte(offset, reg::UNIT_SELECT, self.unit_select)
        } else if slot::in_slot(offset, reg::UNIT_PRESENT) {
            let present: u8 = if self.unit_attached(self.unit_select) {
                1
            } else {
                0
            };
            slot::low_byte(offset, reg::UNIT_PRESENT, present)
        } else if slot::in_slot(offset, reg::UNIT_WRITE_PROTECT) {
            let protect: u8 = match self.selected_unit() {
                Some(u) => if u.write_protect {
                    1
                } else {
                    0
                },
                None => 0,
            };
            slot::low_byte(offset, reg::UNIT_WRITE_PROTECT, protect)
        } else if slot::in_slot(offset, reg::UNIT_CHANGE_COUNT) {
            let changes: u32 = match self.selected_unit() {
                Some(u) => u.change_count,
                None => 0,
            };
            be::byte_of(changes, offset - reg::UNIT_CHANGE_COUNT)
        } else if slot::in_slot(offset, reg::UNIT_SECTORS_HI) {
            be::byte_of(
                (self.selected_capacity() / 0x1_0000_0000) as u32,
                offset - reg::UNIT_SECTORS_HI,
            )
        } else if slot::in_slot(offset, reg::UNIT_SECTORS_LO) {
            be::byte_of(
                (self.selected_capacity() % 0x1_0000_0000) as u32,
                offset - reg::UNIT_SECTORS_LO,
            )
        } else if slot::in_slot(offset, reg::SUBMIT_OVERFLOW) {
            be::byte_of(self.submit_overflow, offset - reg::SUBMIT_OVERFLOW)
        } else if slot::in_slot(offset, reg::COMPLETION_PTR) {
            be::byte_of(self.completion_head().ptr, offset - reg::COMPLETION_PTR)
        } else if slot::in_slot(offset, reg::COMPLETION_ERROR) {
            slot::low_byte(offset, reg::COMPLETION_ERROR, self.completion_head().error)
        } else if slot::in_slot(offset, reg::COMPLETION_ACTUAL) {
            be::byte_of(self.completion_head().actual, offset - reg::COMPLETION_ACTUAL)
        } else if slot::in_slot(offset, reg::COMPLETION_COUNT) {
            be::byte_of(self.completion_queue.len() as u32, offset - reg::COMPLETION_COUNT)
        } else if slot::in_slot(offset, reg::INT_ENABLE) {
            slot::low_byte(offset, reg::INT_ENABLE, self.int_enable)
        } else if slot::in_slot(offset, reg::SUBMIT_CAPACITY) {
            be::byte_of(SUBMIT_QUEUE_CAPACITY as u32, offset - reg::SUBMIT_CAPACITY)
        } else if slot::in_slot(offset, reg::VERSION) {
            be::byte_of(PROTOCOL_VERSION, offset - reg::VERSION)
        } else if ROM_BASE <= offset && ((offset - ROM_BASE) as usize) < self.diag_rom.len() {
            self.diag_rom[(offset - ROM_BASE) as usize]
        } else {
            0
        }
    }

    /// Write a byte of the register file. See [`Hostblk::read`] for the
    /// offset layout. A doorbell write never does I/O.
    pub fn write(&mut self, offset: u32, value: u8)
        ensures
            final(self)@ == old(self)@.reg_written(offset, value),
            final(self).units == old(self).units,
    {
        if offset == reg::UNIT_SELECT + 3 {
            self.unit_select = value;
        } else if slot::in_slot(offset, reg::DOORBELL) {
            self.doorbell_acc = be::set_byte_of(self.doorbell_acc, offset - reg::DOORBELL, value);
            if offset == reg::DOORBELL + 3 {
                self.submit(self.doorbell_acc);
            }
        } else if offset == reg::COMPLETION_ADVANCE + 3 {
            let _ = self.completion_queue.pop();
        } else if offset == reg::INT_ENABLE + 3 {
            self.int_enable = value;
        }
    }

    /// Queue a raw descriptor pointer for [`Hostblk::tick`] to execute.
    /// Drops it, and counts the drop, if the submission ring is already
    /// full.
    fn submit(&mut self, ptr: u32)
        ensures
            final(self)@ == old(self)@.submit(ptr),
            final(self).units == old(self).units,
    {
        if !self.submit_queue.push(ptr) {
            self.submit_overflow = self.submit_overflow.wrapping_add(1);
        }
    }

    fn unit_attached(&self, unit: u8) -> (present: bool)
        ensures
            present == self.attached(unit),
    {
        (unit as usize) < UNIT_COUNT && self.units[unit as usize].is_some()
    }

    fn selected_unit(&self) -> (unit: Option<&Unit<&'a mut (dyn BlockDevice + 'a)>>)
        ensures
            unit is Some == self.attached(self.unit_select),
            unit matches Some(u) ==> *u == self.units@[self.unit_select as int]->0,
    {
        if (self.unit_select as usize) < UNIT_COUNT {
            match &self.units[self.unit_select as usize] {
                Some(u) => Some(u),
                None => None,
            }
        } else {
            None
        }
    }

    fn selected_capacity(&self) -> (sectors: u64)
        ensures
            sectors == self.selected_sectors(),
    {
        match self.selected_unit() {
            Some(u) => u.device.sector_count(),
            None => 0,
        }
    }

    fn completion_head(&self) -> (entry: CompletionEntry)
        ensures
            entry == self@.head(),
    {
        match self.completion_queue.peek() {
            Some(entry) => entry,
            None => CompletionEntry { ptr: 0, error: 0, actual: 0 },
        }
    }
}

/// Copy a sector into a transfer buffer.
fn store_sector(buf: &mut [u8], off: usize, sector: &[u8; SECTOR_BYTES])
    requires
        off + 512 <= old(buf)@.len(),
    ensures
        final(buf)@ == old(buf)@.take(off as int) + sector@ + old(buf)@.skip(off + 512),
{
    let end: usize = buf.len();
    let mut i: usize = 0;
    while i < 512
        invariant
            i <= 512,
            off + 512 <= end,
            buf@.len() == end,
            buf@.len() == old(buf)@.len(),
            forall|j: int|
                0 <= j < buf@.len() ==> buf@[j] == if off <= j < off + i {
                    sector@[j - off]
                } else {
                    old(buf)@[j]
                },
        decreases 512 - i,
    {
        buf[off + i] = sector[i];
        i += 1;
    }
    assert(buf@ =~= old(buf)@.take(off as int) + sector@ + old(buf)@.skip(off + 512));
}

/// Copy a sector out of a transfer buffer.
fn load_sector(buf: &[u8], off: usize, sector: &mut [u8; SECTOR_BYTES])
    requires
        off + 512 <= buf@.len(),
    ensures
        final(sector)@ == buf@.subrange(off as int, off + 512),
{
    let end: usize = buf.len();
    let mut i: usize = 0;
    while i < 512
        invariant
            i <= 512,
            off + 512 <= end,
            buf@.len() == end,
            forall|j: int| 0 <= j < i ==> sector@[j] == buf@[off + j],
        decreases 512 - i,
    {
        sector[i] = buf[off + i];
        i += 1;
    }
    assert(sector@ =~= buf@.subrange(off as int, off + 512));
}

proof fn lemma_delivered_push(answers: Seq<Transfer>, answer: Transfer, n: int)
    requires
        n == answers.len(),
        answer.data.len() == 512,
    ensures
        delivered(answers.push(answer), n + 1) == delivered(answers, n) + answer.data,
        delivered(answers.push(answer), n) == delivered(answers, n),
{
    let longer = answers.push(answer);
    assert forall|i: int| 0 <= i < (n + 1) * 512 implies #[trigger] delivered(longer, n + 1)[i]
        == (delivered(answers, n) + answer.data)[i] by {
        if i < n * 512 {
            assert(0 <= i / 512 < n);
            assert(longer[i / 512] == answers[i / 512]);
        } else {
            assert(i / 512 == n && i % 512 == i - n * 512);
        }
    }
    assert(delivered(longer, n + 1) =~= delivered(answers, n) + answer.data);
    assert forall|i: int| 0 <= i < n * 512 implies #[trigger] delivered(longer, n)[i]
        == delivered(answers, n)[i] by {
        assert(0 <= i / 512 < n);
        assert(longer[i / 512] == answers[i / 512]);
    }
    assert(delivered(longer, n) =~= delivered(answers, n));
}

impl<'a> Unit<&'a mut (dyn BlockDevice + 'a)> {
    /// Read `count` sectors from `start` into `buf`, stopping at the first
    /// failure, and return how many landed.
    fn read_sectors(&mut self, start: u64, count: u32, buf: &mut [u8]) -> (done: u32)
        requires
            old(buf)@.len() == count * 512,
            count * 512 <= u32::MAX,
            start + count <= u64::MAX,
        ensures
            final(self).write_protect == old(self).write_protect,
            final(self).change_count == old(self).change_count,
            exists|asked: Seq<Transfer>|
                {
                    &&& #[trigger] is_run(asked, false, start as int, count as int)
                    &&& final(self).device.log() == old(self).device.log() + asked
                    &&& done == landed(asked)
                    &&& final(buf)@ == delivered(asked, done as int) + old(buf)@.skip(done * 512)
                },
    {
        let mut sector: [u8; SECTOR_BYTES] = [0;SECTOR_BYTES];
        let mut i: u32 = 0;
        let ghost mut asked: Seq<Transfer> = Seq::empty();
        assert(buf@ =~= delivered(asked, 0) + old(buf)@.skip(0));
        assert(self.device.log() =~= old(self).device.log() + asked);
        while i < count
            invariant
                i <= count,
                count * 512 <= u32::MAX,
                start + count <= u64::MAX,
                old(buf)@.len() == count * 512,
                self.write_protect == old(self).write_protect,
                self.change_count == old(self).change_count,
                self.device.log() == old(self).device.log() + asked,
                asked.len() == i,
                forall|j: int|
                    0 <= j < i ==> {
                        &&& !(#[trigger] asked[j]).is_write
                        &&& asked[j].lba == start + j
                        &&& asked[j].data.len() == SECTOR_BYTES
                        &&& asked[j].ok
                    },
                buf@ == delivered(asked, i as int) + old(buf)@.skip(i * 512),
            decreases count - i,
        {
            let lba: u64 = start + i as u64;
            let ghost before = asked;
            let ok: bool = self.device.read_sector(lba, &mut sector);
            let ghost transfer = Transfer { is_write: false, lba, data: sector@, ok };
            proof {
                asked = before.push(transfer);
                assert(self.device.log() =~= old(self).device.log() + asked);
                lemma_delivered_push(before, transfer, i as int);
            }
            if !ok {
                assert(is_run(asked, false, start as int, count as int));
                assert(landed(asked) == i);
                return i;
            }
            store_sector(buf, i as usize * 512, &sector);
            i += 1;
            assert(buf@ =~= delivered(asked, i as int) + old(buf)@.skip(i * 512));
        }
        assert(landed(asked) == i) by {
            if i > 0 {
                assert(asked[i - 1].ok);
            }
        }
        assert(is_run(asked, false, start as int, count as int));
        i
    }

    /// Write `count` sectors from `buf` to `start` on, stopping at the first
    /// failure, and return how many landed.
    fn write_sectors(&mut self, start: u64, count: u32, buf: &[u8]) -> (done: u32)
        requires
            buf@.len() == count * 512,
            count * 512 <= u32::MAX,
            start + count <= u64::MAX,
        ensures
            final(self).write_protect == old(self).write_protect,
            final(self).change_count == old(self).change_count,
            exists|asked: Seq<Transfer>|
                {
                    &&& #[trigger] is_run(asked, true, start as int, count as int)
                    &&& hands_over(asked, buf@)
                    &&& final(self).device.log() == old(self).device.log() + asked
                    &&& done == landed(asked)
                },
    {
        let mut sector: [u8; SECTOR_BYTES] = [0;SECTOR_BYTES];
        let mut i: u32 = 0;
        let ghost mut asked: Seq<Transfer> = Seq::empty();
        assert(self.device.log() =~= old(self).device.log() + asked);
        while i < count
            invariant
                i <= count,
                count * 512 <= u32::MAX,
                start + count <= u64::MAX,
                buf@.len() == count * 512,
                self.write_protect == old(self).write_protect,
                self.change_count == old(self).change_count,
                self.device.log() == old(self).device.log() + asked,
                asked.len() == i,
                forall|j: int|
                    0 <= j < i ==> {
                        &&& (#[trigger] asked[j]).is_write
                        &&& asked[j].lba == start + j
                        &&& asked[j].data == sector_of(buf@, j)
                        &&& asked[j].ok
                    },
            decreases count - i,
        {
            let lba: u64 = start + i as u64;
            load_sector(buf, i as usize * 512, &mut sector);
            assert(sector@ =~= sector_of(buf@, i as int));
            let ghost before = asked;
            let ok: bool = self.device.write_sector(lba, &sector);
            proof {
                asked = before.push(Transfer { is_write: true, lba, data: sector@, ok });
                assert(self.device.log() =~= old(self).device.log() + asked);
            }
            if !ok {
                assert(is_run(asked, true, start as int, count as int));
                assert(landed(asked) == i);
                return i;
            }
            i += 1;
        }
        assert(landed(asked) == i) by {
            if i > 0 {
                assert(asked[i - 1].ok);
            }
        }
        assert(is_run(asked, true, start as int, count as int));
        i
    }
}

impl<'a> Hostblk<'a> {
    /// Advance the engine by one step: execute at most one queued request
    /// against guest RAM.
    ///
    /// Nothing at all happens while the completion queue is full: a
    /// submission is only dequeued when there is room for the completion it
    /// will produce.
    pub fn tick<M: GuestMemory + ?Sized>(&mut self, mem: &mut M)
        ensures
            ({
                let was = old(self)@;
                let ptr = was.submitted[0];
                let ram = old(mem).ram();
                if was.can_run() {
                    exists|asked: Seq<Transfer>|
                        {
                            let (error, actual) = old(self).completion(ptr, ram, asked);
                            &&& #[trigger] old(self).may_ask(ptr, ram, asked)
                            &&& final(self).units_after(old(self), ptr, ram, asked)
                            &&& final(self)@ == was.ran(error, actual)
                            &&& final(mem).ram() == old(self).ram_after(ptr, ram, asked)
                        }
                } else {
                    &&& final(self)@ == was
                    &&& final(self).units == old(self).units
                    &&& final(mem).ram() == ram
                }
            }),
    {
        if self.completion_queue.is_full() {
            return;
        }
        match self.submit_queue.pop() {
            None => {},
            Some(ptr) => {
                let ghost dequeued = *self;
                let ghost ram = mem.ram();
                let (error, actual) = self.execute(ptr, mem);
                let ghost executed = *self;
                let _ = self.completion_queue.push(CompletionEntry { ptr, error, actual });
                proof {
                    let asked = choose|asked: Seq<Transfer>|
                        {
                            &&& #[trigger] dequeued.may_ask(ptr, ram, asked)
                            &&& executed.units_after(&dequeued, ptr, ram, asked)
                            &&& (error, actual) == dequeued.completion(ptr, ram, asked)
                            &&& mem.ram() == dequeued.ram_after(ptr, ram, asked)
                        };
                    assert(old(self).rejection(ptr, ram) == dequeued.rejection(ptr, ram));
                    assert(old(self).may_ask(ptr, ram, asked));
                    assert(self.units_after(old(self), ptr, ram, asked));
                }
            },
        }
    }

    /// Execute the request whose descriptor lies at `ptr`.
    fn execute<M: GuestMemory + ?Sized>(&mut self, ptr: u32, mem: &mut M) -> (completion: (
        u8,
        u32,
    ))
        ensures
            final(self)@ == old(self)@,
            exists|asked: Seq<Transfer>|
                {
                    &&& #[trigger] old(self).may_ask(ptr, old(mem).ram(), asked)
                    &&& final(self).units_after(old(self), ptr, old(mem).ram(), asked)
                    &&& completion == old(self).completion(ptr, old(mem).ram(), asked)
                    &&& final(mem).ram() == old(self).ram_after(ptr, old(mem).ram(), asked)
                },
    {
        let ghost ram = mem.ram();
        let ghost none = Seq::<Transfer>::empty();
        if ptr % 4 != 0 {
            assert(self.may_ask(ptr, ram, none));
            return (err::BAD_ADDRESS, 0);
        }
        let desc: Descriptor = match mem.ram_slice(ptr, DESC_LEN) {
            None => {
                assert(self.may_ask(ptr, ram, none));
                return (err::BAD_ADDRESS, 0);
            },
            Some(d) => parse_descriptor(d),
        };
        if !self.unit_attached(desc.unit) {
            assert(self.may_ask(ptr, ram, none));
            return (err::BAD_UNIT, 0);
        }
        match desc.command {
            cmd::READ | cmd::WRITE => self.transfer(ptr, &desc, mem),
            cmd::FLUSH => {
                proof {
                    lemma_nothing_asked(self, ptr, ram);
                }
                (err::OK, 0)
            },
            _ => {
                proof {
                    lemma_nothing_asked(self, ptr, ram);
                }
                (err::INVALID_COMMAND, 0)
            },
        }
    }

    /// Run the `READ`/`WRITE` whose descriptor at `ptr` is `desc` to
    /// completion, validating every guest-supplied field first.
    fn transfer<M: GuestMemory + ?Sized>(
        &mut self,
        ptr: u32,
        desc: &Descriptor,
        mem: &mut M,
    ) -> (completion: (u8, u32))
        requires
            ptr % 4 == 0,
            old(mem).ram().reachable(ptr, DESC_LEN),
            *desc == descriptor_at(old(mem).ram(), ptr),
            old(self).attached(desc.unit),
            desc.moves_data(),
        ensures
            final(self)@ == old(self)@,
            exists|asked: Seq<Transfer>|
                {
                    &&& #[trigger] old(self).may_ask(ptr, old(mem).ram(), asked)
                    &&& final(self).units_after(old(self), ptr, old(mem).ram(), asked)
                    &&& completion == old(self).completion(ptr, old(mem).ram(), asked)
                    &&& final(mem).ram() == old(self).ram_after(ptr, old(mem).ram(), asked)
                },
    {
        let is_write: bool = desc.command == cmd::WRITE;
        let ghost ram = mem.ram();
        let ghost was = *self;
        proof {
            lemma_nothing_asked(&was, ptr, ram);
        }
        let (start, count) = match &self.units[desc.unit as usize] {
            None => return (err::BAD_UNIT, 0),
            Some(unit) => match plan_transfer(
                desc,
                is_write,
                unit.write_protect,
                unit.device.sector_count(),
            ) {
                Err(error) => return (error, 0),
                Ok(plan) => plan,
            },
        };
        // One validated view of the whole buffer, taken up front, before any
        // device I/O runs.
        match mem.ram_slice_mut(desc.buffer, desc.length) {
            None => (err::BAD_ADDRESS, 0),
            Some(buf) => {
                let ghost bytes = ram.read(desc.buffer, desc.length as int);
                match &mut self.units[desc.unit as usize] {
                    None => (err::BAD_UNIT, 0),
                    Some(unit) => {
                        let ghost unit_before = *unit;
                        if is_write {
                            let done: u32 = unit.write_sectors(start, count, buf);
                            let ghost unit_after = *unit;
                            proof {
                                memory::writing_back_keeps_ram(
                                    ram,
                                    desc.buffer,
                                    desc.length as int,
                                    Seq::empty(),
                                );
                                assert(bytes =~= Seq::empty() + bytes.skip(0));
                                let asked = choose|asked: Seq<Transfer>|
                                    {
                                        &&& #[trigger] is_run(
                                            asked,
                                            true,
                                            start as int,
                                            count as int,
                                        )
                                        &&& hands_over(asked, bytes)
                                        &&& unit_after.device.log() == unit_before.device.log()
                                            + asked
                                        &&& done == landed(asked)
                                    };
                                assert(was.may_ask(ptr, ram, asked));
                            }
                            transfer_result(done, count)
                        } else {
                            let done: u32 = unit.read_sectors(start, count, buf);
                            let ghost unit_after = *unit;
                            proof {
                                let asked = choose|asked: Seq<Transfer>|
                                    {
                                        &&& #[trigger] is_run(
                                            asked,
                                            false,
                                            start as int,
                                            count as int,
                                        )
                                        &&& unit_after.device.log() == unit_before.device.log()
                                            + asked
                                        &&& done == landed(asked)
                                        &&& buf@ == delivered(asked, done as int) + bytes.skip(
                                            done * 512,
                                        )
                                    };
                                memory::writing_back_keeps_ram(
                                    ram,
                                    desc.buffer,
                                    desc.length as int,
                                    delivered(asked, done as int),
                                );
                                assert(was.may_ask(ptr, ram, asked));
                            }
                            transfer_result(done, count)
                        }
                    },
                }
            },
        }
    }
}

/// A request that asks nothing of its device leaves the units as they are.
proof fn lemma_nothing_asked(h: &Hostblk, ptr: u32, ram: GuestRam)
    ensures
        h.units_after(h, ptr, ram, Seq::empty()),
        h.rejection(ptr, ram) is Some || descriptor_at(ram, ptr).command == cmd::FLUSH
            ==> h.may_ask(ptr, ram, Seq::empty()),
{
    let unit = descriptor_at(ram, ptr).unit;
    if h.attached(unit) {
        let log = h.units@[unit as int]->0.device.log();
        assert(log + Seq::empty() =~= log);
    }
}

} // verus!
