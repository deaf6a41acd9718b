//! MIRAGE, the image-backed Zorro block storage card, block plane only.
//!
//! The card never completes a command inside the bus access that issued it:
//! its backing store may be slow or asynchronous. Accepting a command leaves
//! the device `BUSY` until a later [`Mirage::tick`] completes it. A driver
//! that reads `DATA` or polls `CMD_STATUS` without letting a tick land sees
//! `BUSY` and nothing else.
//!
//! # Register file
//!
//! | Offset | Register | |
//! |---|---|---|
//! | `+0x00` | `UNIT_SELECT` | low byte of the slot; 0-7 selects a unit |
//! | `+0x04` | `LBA` | 32-bit big-endian |
//! | `+0x08` | `COUNT` | 32-bit big-endian |
//! | `+0x0C` | `CMD` / `STATUS` | low byte of the slot |
//! | `+0x10` | `DATA` | any byte touch pops/pushes one byte of the sector |
//! | `+0x18` | `INT_ENABLE` | low byte of the slot |
//! | `+0x1C` | `INT_STATUS` | low byte of the slot, write-1-to-clear |
//!
//! A single-byte value sits in the low-order byte of its slot; the other
//! three bytes read `0` and ignore writes, and so does every offset the
//! table does not list.
//!
//! A command written while a transfer is in flight is ignored. `COUNT == 0`,
//! a range past the end of the device, an unknown command, and a unit that
//! does not exist or is not attached are rejected with `ERR`, immediately.
//! Rejection and failure raise the completion interrupt too. `FLUSH`
//! completes the same handshake with nothing underneath to flush.

use crate::autoconfig::{BoardSpec, ERT_ZORROII};
use crate::be;
use crate::block::{BlockDevice, Transfer, SECTOR_BYTES};
use crate::slot;
use vstd::prelude::*;

pub mod cmd;
pub mod irq;
pub mod laws;
pub mod reg;
pub mod session_laws;
pub mod status;

verus! {

/// The manufacturer number reserved for test use.
pub const MANUFACTURER: u16 = 0x07DB;

/// MIRAGE's only product number so far.
pub const PRODUCT: u8 = 0;

/// The Zorro II AUTOCONFIG window: 64 KB, the smallest available size code.
pub const WINDOW_BYTES: u32 = 0x0001_0000;

/// Units `UNIT_SELECT` can address.
pub const UNIT_COUNT: usize = 8;

/// How many [`Mirage::tick`] calls a pending operation waits through before
/// landing. It counts calls, not time: it guarantees that a command never
/// completes in the same bus access that issued it.
pub const TICKS_PER_SECTOR: u8 = 1;

/// Where a block-plane operation is in its `BUSY`/`DRQ` handshake.
#[derive(Clone, Copy, PartialEq, Eq, Debug, Structural)]
pub enum State {
    /// No transfer in progress.
    Idle,
    /// A `READ` is waiting for `tick()` to fetch the current sector.
    ReadPending,
    /// A sector sits in the FIFO; the guest drains it through `DATA`.
    ReadReady,
    /// A `WRITE` is waiting for `tick()` before the FIFO will accept this
    /// sector's bytes.
    WritePending,
    /// The FIFO is accepting bytes for the current sector through `DATA`.
    WriteReady,
    /// A full sector sits in the FIFO waiting for `tick()` to commit it.
    WriteCommitting,
    /// `FLUSH` is waiting for `tick()` to complete.
    FlushPending,
}

impl State {
    /// Whether the operation waits on a tick.
    pub open spec fn waiting(self) -> bool {
        self == State::ReadPending || self == State::WritePending || self
            == State::WriteCommitting || self == State::FlushPending
    }

    /// Whether the FIFO is open to the guest.
    pub open spec fn data_phase(self) -> bool {
        self == State::ReadReady || self == State::WriteReady
    }
}

/// What the card holds, apart from its attached devices.
#[verifier::ext_equal]
pub struct Card {
    pub change_count: Seq<u32>,
    pub unit_select: u8,
    pub lba: u32,
    pub count: u32,
    pub status: u8,
    pub int_enable: u8,
    pub int_status: u8,
    pub state: State,
    pub active_unit: usize,
    pub current_lba: u32,
    pub sectors_left: u32,
    pub ticks_left: u8,
    pub fifo: Seq<u8>,
    pub pos: usize,
}

impl Card {
    /// The handshake is consistent: the status shows the state, a waiting
    /// operation has a tick to wait for, and a transfer has sectors left
    /// and room in its FIFO.
    pub open spec fn wf(self) -> bool {
        &&& self.change_count.len() == UNIT_COUNT
        &&& self.fifo.len() == SECTOR_BYTES
        &&& self.active_unit < UNIT_COUNT
        &&& self.ticks_left <= TICKS_PER_SECTOR
        &&& self.state.waiting() == (self.ticks_left > 0)
        &&& self.state.waiting() ==> self.status == status::BUSY
        &&& self.state.data_phase() ==> self.status == status::DRQ && self.pos < SECTOR_BYTES
        &&& self.state == State::Idle ==> self.status == 0 || self.status == status::ERR
        &&& self.state != State::Idle && self.state != State::FlushPending ==> self.sectors_left
            > 0
    }

    /// A command failed validation, or a device operation failed once
    /// attempted: `ERR`, and the completion interrupt.
    pub open spec fn failed(self) -> Card {
        Card {
            state: State::Idle,
            status: status::ERR,
            sectors_left: 0,
            int_status: self.int_status | irq::XFER_COMPLETE,
            ..self
        }
    }

    /// The card waiting for a tick.
    pub open spec fn waiting_in(self, state: State) -> Card {
        Card { state, status: status::BUSY, ticks_left: TICKS_PER_SECTOR, ..self }
    }

    /// Whether the programmed range is one a device of `total` sectors can
    /// transfer.
    pub open spec fn range_fits(self, total: u64) -> bool {
        self.count > 0 && self.lba + self.count <= total
    }

    /// The card with a transfer of the programmed range set up.
    pub open spec fn targeted(self) -> Card {
        Card {
            active_unit: self.unit_select as usize,
            current_lba: self.lba,
            sectors_left: self.count,
            ..self
        }
    }

    /// The card after a command. `capacity` is the size of the selected
    /// unit, `None` when there is no such unit or nothing attached to it.
    pub open spec fn commanded(self, code: u8, capacity: Option<u64>) -> Card {
        if self.state != State::Idle {
            self
        } else {
            match capacity {
                None => self.failed(),
                Some(total) => if code == cmd::READ && self.range_fits(total) {
                    self.targeted().waiting_in(State::ReadPending)
                } else if code == cmd::WRITE && self.range_fits(total) {
                    (Card { pos: 0, ..self.targeted() }).waiting_in(State::WritePending)
                } else if code == cmd::FLUSH {
                    (Card { active_unit: self.unit_select as usize, ..self }).waiting_in(
                        State::FlushPending,
                    )
                } else {
                    self.failed()
                },
            }
        }
    }

    /// The card after the device answered the fetch of a sector: `fifo`
    /// holds what it left in the buffer.
    pub open spec fn fetched(self, ok: bool) -> Card {
        if ok {
            Card {
                pos: 0,
                state: State::ReadReady,
                status: status::DRQ,
                int_status: self.int_status | irq::XFER_COMPLETE,
                ..self
            }
        } else {
            self.failed()
        }
    }

    /// The card open for the next sector's bytes.
    pub open spec fn prepared(self) -> Card {
        Card { pos: 0, state: State::WriteReady, status: status::DRQ, ..self }
    }

    /// The card after the device answered the commit of a sector.
    pub open spec fn committed(self, ok: bool) -> Card {
        if !ok {
            self.failed()
        } else if self.sectors_left == 1 {
            Card {
                sectors_left: 0,
                state: State::Idle,
                status: 0,
                int_status: self.int_status | irq::XFER_COMPLETE,
                ..self
            }
        } else {
            (Card {
                sectors_left: (self.sectors_left - 1) as u32,
                current_lba: self.current_lba.wrapping_add(1),
                int_status: self.int_status | irq::XFER_COMPLETE,
                ..self
            }).prepared()
        }
    }

    /// The card after a flush completes.
    pub open spec fn flushed(self) -> Card {
        Card {
            state: State::Idle,
            status: 0,
            int_status: self.int_status | irq::XFER_COMPLETE,
            ..self
        }
    }

    /// What a `DATA` read returns, and the card after it. Only a ready
    /// sector has bytes; draining its last one either finishes the transfer
    /// or goes back to waiting for the next sector.
    pub open spec fn data_read(self) -> (u8, Card) {
        if self.state != State::ReadReady {
            (0, self)
        } else {
            let byte = self.fifo[self.pos as int];
            let moved = Card { pos: (self.pos + 1) as usize, ..self };
            if self.pos + 1 < SECTOR_BYTES {
                (byte, moved)
            } else if self.sectors_left == 1 {
                (byte, Card { sectors_left: 0, state: State::Idle, status: 0, ..moved })
            } else {
                (
                    byte,
                    (Card {
                        sectors_left: (self.sectors_left - 1) as u32,
                        current_lba: self.current_lba.wrapping_add(1),
                        ..moved
                    }).waiting_in(State::ReadPending),
                )
            }
        }
    }

    /// The card after a `DATA` write. Only an open FIFO takes bytes; its
    /// last one sends the sector off to be committed.
    pub open spec fn data_written(self, value: u8) -> Card {
        if self.state != State::WriteReady {
            self
        } else {
            let pushed = Card {
                fifo: self.fifo.update(self.pos as int, value),
                pos: (self.pos + 1) as usize,
                ..self
            };
            if self.pos + 1 < SECTOR_BYTES {
                pushed
            } else {
                pushed.waiting_in(State::WriteCommitting)
            }
        }
    }

    /// What a register read returns, and the card after it.
    pub open spec fn reg_read(self, offset: u32) -> (u8, Card) {
        if slot::holds(offset, reg::UNIT_SELECT) {
            (slot::low_lane(offset, reg::UNIT_SELECT, self.unit_select), self)
        } else if slot::holds(offset, reg::LBA) {
            (be::byte_lane(self.lba, offset - reg::LBA), self)
        } else if slot::holds(offset, reg::COUNT) {
            (be::byte_lane(self.count, offset - reg::COUNT), self)
        } else if slot::holds(offset, reg::CMD_STATUS) {
            (slot::low_lane(offset, reg::CMD_STATUS, self.status), self)
        } else if slot::holds(offset, reg::DATA) {
            self.data_read()
        } else if slot::holds(offset, reg::INT_ENABLE) {
            (slot::low_lane(offset, reg::INT_ENABLE, self.int_enable), self)
        } else if slot::holds(offset, reg::INT_STATUS) {
            (slot::low_lane(offset, reg::INT_STATUS, self.int_status), self)
        } else {
            (0, self)
        }
    }

    /// The card after a register write.
    pub open spec fn reg_written(self, offset: u32, value: u8, capacity: Option<u64>) -> Card {
        if offset == reg::UNIT_SELECT + 3 {
            Card { unit_select: value, ..self }
        } else if slot::holds(offset, reg::LBA) {
            Card { lba: be::with_lane(self.lba, offset - reg::LBA, value), ..self }
        } else if slot::holds(offset, reg::COUNT) {
            Card { count: be::with_lane(self.count, offset - reg::COUNT, value), ..self }
        } else if offset == reg::CMD_STATUS + 3 {
            self.commanded(value, capacity)
        } else if slot::holds(offset, reg::DATA) {
            self.data_written(value)
        } else if offset == reg::INT_ENABLE + 3 {
            Card { int_enable: value, ..self }
        } else if offset == reg::INT_STATUS + 3 {
            Card { int_status: self.int_status & !value, ..self }
        } else {
            self
        }
    }
}

/// A card out of reset.
pub open spec fn reset_card() -> Card {
    Card {
        change_count: Seq::new(UNIT_COUNT as nat, |i: int| 0u32),
        unit_select: 0,
        lba: 0,
        count: 0,
        status: 0,
        int_enable: 0,
        int_status: 0,
        state: State::Idle,
        active_unit: 0,
        current_lba: 0,
        sectors_left: 0,
        ticks_left: 0,
        fifo: Seq::new(SECTOR_BYTES as nat, |i: int| 0u8),
        pos: 0,
    }
}

/// MIRAGE's block plane: one AUTOCONFIG board, up to [`UNIT_COUNT`] units
/// over borrowed [`BlockDevice`]s.
pub struct Mirage<'a> {
    pub units: [Option<&'a mut (dyn BlockDevice + 'a)>; UNIT_COUNT],
    /// Per-unit removable-media change counter.
    pub change_count: [u32; UNIT_COUNT],
    pub unit_select: u8,
    pub lba: u32,
    pub count: u32,
    pub status: u8,
    pub int_enable: u8,
    pub int_status: u8,
    pub state: State,
    /// The unit a transfer targets, snapshotted from `unit_select` when the
    /// command was accepted: re-writing `UNIT_SELECT` mid-transfer does not
    /// redirect an operation already in flight.
    pub active_unit: usize,
    pub current_lba: u32,
    pub sectors_left: u32,
    pub ticks_left: u8,
    /// The current sector's staging area, a destructive FIFO.
    pub sector_buf: [u8; SECTOR_BYTES],
    pub buf_pos: usize,
}

impl<'a> View for Mirage<'a> {
    type V = Card;

    open spec fn view(&self) -> Card {
        Card {
            change_count: self.change_count@,
            unit_select: self.unit_select,
            lba: self.lba,
            count: self.count,
            status: self.status,
            int_enable: self.int_enable,
            int_status: self.int_status,
            state: self.state,
            active_unit: self.active_unit,
            current_lba: self.current_lba,
            sectors_left: self.sectors_left,
            ticks_left: self.ticks_left,
            fifo: self.sector_buf@,
            pos: self.buf_pos,
        }
    }
}

impl<'a> Default for Mirage<'a> {
    fn default() -> (card: Self)
        ensures
            card@ == reset_card(),
            card@.wf(),
            forall|i: int| 0 <= i < UNIT_COUNT ==> card.units@[i] is None,
    {
        Self::new()
    }
}

impl<'a> Mirage<'a> {
    /// Whether the active unit's device has been asked for one transfer, and
    /// given this answer, since `before`.
    pub open spec fn has_asked(&self, before: &Self, transfer: Transfer) -> bool {
        let unit = before@.active_unit as int;
        &&& self.units@[unit] is Some
        &&& self.units@[unit]->0.log() == before.units@[unit]->0.log().push(transfer)
    }

    /// The size of unit `unit`, if there is such a unit and a device is
    /// attached to it.
    pub open spec fn capacity(&self, unit: int) -> Option<u64> {
        if 0 <= unit < UNIT_COUNT {
            match self.units@[unit] {
                Some(device) => Some(device.sectors()),
                None => None,
            }
        } else {
            None
        }
    }

    pub fn new() -> (card: Self)
        ensures
            card@ == reset_card(),
            card@.wf(),
            forall|i: int| 0 <= i < UNIT_COUNT ==> card.units@[i] is None,
    {
        Self {
            units: [None, None, None, None, None, None, None, None],
            change_count: [0;UNIT_COUNT],
            unit_select: 0,
            lba: 0,
            count: 0,
            status: 0,
            int_enable: 0,
            int_status: 0,
            state: State::Idle,
            active_unit: 0,
            current_lba: 0,
            sectors_left: 0,
            ticks_left: 0,
            sector_buf: [0;SECTOR_BYTES],
            buf_pos: 0,
        }
    }

    /// The `BoardSpec` this card registers on the AUTOCONFIG chain: one
    /// 64 KB Zorro II board.
    pub fn board_spec() -> (spec: BoardSpec)
        ensures
            spec == (BoardSpec {
                board_type: ERT_ZORROII | 0x01,
                product: PRODUCT,
                flags: 0,
                manufacturer: MANUFACTURER,
                serial: 0,
                init_diag_vec: 0,
                size_bytes: WINDOW_BYTES,
            }),
    {
        BoardSpec {
            board_type: ERT_ZORROII | 0x01,
            product: PRODUCT,
            flags: 0,
            manufacturer: MANUFACTURER,
            serial: 0,
            init_diag_vec: 0,
            size_bytes: WINDOW_BYTES,
        }
    }

    /// Attach a disk to unit `unit`. Out-of-range units are silently
    /// ignored.
    pub fn attach_unit(&mut self, unit: u8, device: &'a mut (dyn BlockDevice + 'a))
        ensures
            final(self)@ == old(self)@,
            unit < UNIT_COUNT ==> final(self).units@[unit as int] is Some
                && final(self).units@[unit as int]->0 == device,
            forall|i: int|
                0 <= i < UNIT_COUNT && i != unit ==> final(self).units@[i] == old(self).units@[i],
    {
        let slot = Some(device);
        if (unit as usize) < UNIT_COUNT {
            self.units[unit as usize] = slot;
        }
    }

    /// Host-side hook for a media change: bumps `unit`'s change counter and
    /// raises the media-change interrupt source. Out-of-range units do
    /// nothing.
    pub fn notify_media_change(&mut self, unit: usize)
        ensures
            final(self)@ == (if unit < UNIT_COUNT {
                Card {
                    change_count: old(self)@.change_count.update(
                        unit as int,
                        old(self)@.change_count[unit as int].wrapping_add(1),
                    ),
                    int_status: old(self)@.int_status | irq::MEDIA_CHANGE,
                    ..old(self)@
                }
            } else {
                old(self)@
            }),
            final(self).units == old(self).units,
    {
        if unit < UNIT_COUNT {
            self.change_count[unit] = self.change_count[unit].wrapping_add(1);
            self.int_status = self.int_status | irq::MEDIA_CHANGE;
        }
    }

    /// `unit`'s current change counter, `0` for an out-of-range unit.
    pub fn change_count(&self, unit: usize) -> (changes: u32)
        ensures
            changes == (if unit < UNIT_COUNT {
                self@.change_count[unit as int]
            } else {
                0
            }),
    {
        if unit < UNIT_COUNT {
            self.change_count[unit]
        } else {
            0
        }
    }

    /// Whether MIRAGE is asserting its interrupt, which the bus routes to
    /// INT2 (`PORTS`).
    pub fn irq_pending(&self) -> (asserted: bool)
        ensures
            asserted == (self@.int_status & self@.int_enable != 0),
    {
        self.int_status & self.int_enable != 0
    }

    /// Advance the deferred-completion state machine by one step.
    ///
    /// A waiting read asks the active unit's device for the current sector,
    /// a waiting commit hands it the staged one; the device's answer decides
    /// between [`Card::fetched`]/[`Card::committed`] success and failure.
    /// Only the active unit's device is touched.
    pub fn tick(&mut self)
        requires
            old(self)@.wf(),
        ensures
            final(self)@.wf(),
            forall|i: int|
                0 <= i < UNIT_COUNT && i != old(self)@.active_unit ==> final(self).units@[i]
                    == old(self).units@[i],
            ({
                let was = old(self)@;
                let due = Card { ticks_left: 0, ..was };
                let device = old(self).units@[was.active_unit as int];
                &&& !was.state.waiting() ==> final(self)@ == was && final(self).units
                    == old(self).units
                &&& was.state == State::ReadPending ==> match device {
                    None => final(self)@ == due.failed() && final(self).units == old(self).units,
                    Some(d) => exists|ok: bool, data: Seq<u8>|
                        {
                            &&& #[trigger] final(self).has_asked(
                                old(self),
                                Transfer {
                                    is_write: false,
                                    lba: was.current_lba as u64,
                                    data,
                                    ok,
                                },
                            )
                            &&& final(self)@ == (Card { fifo: data, ..due }).fetched(ok)
                        },
                }
                &&& was.state == State::WritePending ==> final(self)@ == due.prepared()
                    && final(self).units == old(self).units
                &&& was.state == State::WriteCommitting ==> match device {
                    None => final(self)@ == due.failed() && final(self).units == old(self).units,
                    Some(d) => exists|ok: bool|
                        {
                            &&& #[trigger] final(self).has_asked(
                                old(self),
                                Transfer {
                                    is_write: true,
                                    lba: was.current_lba as u64,
                                    data: was.fifo,
                                    ok,
                                },
                            )
                            &&& final(self)@ == due.committed(ok)
                        },
                }
                &&& was.state == State::FlushPending ==> final(self)@ == due.flushed()
                    && final(self).units == old(self).units
            }),
    {
        if self.ticks_left == 0 {
            return;
        }
        self.ticks_left = self.ticks_left - 1;
        match self.state {
            State::ReadPending => {
                let lba: u64 = self.current_lba as u64;
                let unit: usize = self.active_unit;
                match &mut self.units[unit] {
                    None => self.fail(),
                    Some(device) => {
                        let ok: bool = device.read_sector(lba, &mut self.sector_buf);
                        let ghost data = self.sector_buf@;
                        self.sector_fetched(ok);
                        assert(self.has_asked(
                            old(self),
                            Transfer { is_write: false, lba, data, ok },
                        ));
                    },
                }
            },
            State::WritePending => self.prepare_sector(),
            State::WriteCommitting => {
                let lba: u64 = self.current_lba as u64;
                let unit: usize = self.active_unit;
                match &mut self.units[unit] {
                    None => self.fail(),
                    Some(device) => {
                        let ok: bool = device.write_sector(lba, &self.sector_buf);
                        let ghost data = self.sector_buf@;
                        self.sector_committed(ok);
                        assert(self.has_asked(
                            old(self),
                            Transfer { is_write: true, lba, data, ok },
                        ));
                    },
                }
            },
            State::FlushPending => self.complete_flush(),
            _ => {},
        }
    }

    /// Read a byte of the register file, offset from this board's configured
    /// AUTOCONFIG base.
    pub fn read(&mut self, offset: u32) -> (value: u8)
        requires
            old(self)@.wf(),
        ensures
            final(self)@.wf(),
            (value, final(self)@) == old(self)@.reg_read(offset),
            final(self).units == old(self).units,
    {
        if slot::in_slot(offset, reg::UNIT_SELECT) {
            slot::low_byte(offset, reg::UNIT_SELECT, self.unit_select)
        } else if slot::in_slot(offset, reg::LBA) {
            be::byte_of(self.lba, offset - reg::LBA)
        } else if slot::in_slot(offset, reg::COUNT) {
            be::byte_of(self.count, offset - reg::COUNT)
        } else if slot::in_slot(offset, reg::CMD_STATUS) {
            slot::low_byte(offset, reg::CMD_STATUS, self.status)
        } else if slot::in_slot(offset, reg::DATA) {
            self.data_read()
        } else if slot::in_slot(offset, reg::INT_ENABLE) {
            slot::low_byte(offset, reg::INT_ENABLE, self.int_enable)
        } else if slot::in_slot(offset, reg::INT_STATUS) {
            slot::low_byte(offset, reg::INT_STATUS, self.int_status)
        } else {
            0
        }
    }

    /// Write a byte of the register file. See [`Mirage::read`] for the
    /// offset layout.
    ///
    /// `INT_STATUS` is write-1-to-clear: on a shared, level-triggered line a
    /// driver acknowledges exactly the sources it read, without a race
    /// against a new one.
    pub fn write(&mut self, offset: u32, value: u8)
        requires
            old(self)@.wf(),
        ensures
            final(self)@.wf(),
            final(self)@ == old(self)@.reg_written(
                offset,
                value,
                old(self).capacity(old(self).unit_select as int),
            ),
            final(self).units == old(self).units,
    {
        if offset == reg::UNIT_SELECT + 3 {
            self.unit_select = value;
        } else if slot::in_slot(offset, reg::LBA) {
            self.lba = be::set_byte_of(self.lba, offset - reg::LBA, value);
        } else if slot::in_slot(offset, reg::COUNT) {
            self.count = be::set_byte_of(self.count, offset - reg::COUNT, value);
        } else if offset == reg::CMD_STATUS + 3 {
            self.do_command(value);
        } else if slot::in_slot(offset, reg::DATA) {
            self.data_write(value);
        } else if offset == reg::INT_ENABLE + 3 {
            self.int_enable = value;
        } else if offset == reg::INT_STATUS + 3 {
            self.int_status = self.int_status & !value;
        }
    }

    fn do_command(&mut self, raw_cmd: u8)
        requires
            old(self)@.wf(),
        ensures
            final(self)@.wf(),
            final(self)@ == old(self)@.commanded(
                raw_cmd,
                old(self).capacity(old(self).unit_select as int),
            ),
            final(self).units == old(self).units,
    {
        if self.state != State::Idle {
            return;
        }
        let unit: usize = self.unit_select as usize;
        if unit >= UNIT_COUNT {
            self.fail();
            return;
        }
        // A real controller knows "nothing in this slot" without touching
        // the medium, so this is resolved immediately.
        let total: u64 = match &self.units[unit] {
            None => {
                self.fail();
                return;
            },
            Some(device) => device.sector_count(),
        };
        match raw_cmd {
            cmd::READ | cmd::WRITE => {
                if self.count == 0 || self.lba as u64 + self.count as u64 > total {
                    self.fail();
                    return;
                }
                self.active_unit = unit;
                self.current_lba = self.lba;
                self.sectors_left = self.count;
                if raw_cmd == cmd::WRITE {
                    self.buf_pos = 0;
                    self.state = State::WritePending;
                } else {
                    self.state = State::ReadPending;
                }
                self.status = status::BUSY;
                self.ticks_left = TICKS_PER_SECTOR;
            },
            cmd::FLUSH => {
                self.active_unit = unit;
                self.state = State::FlushPending;
                self.status = status::BUSY;
                self.ticks_left = TICKS_PER_SECTOR;
            },
            _ => self.fail(),
        }
    }

    /// Report `ERR` and still raise the completion interrupt: a rejected or
    /// failed command still completes.
    fn fail(&mut self)
        ensures
            final(self)@ == old(self)@.failed(),
            final(self).units == old(self).units,
    {
        self.state = State::Idle;
        self.status = status::ERR;
        self.sectors_left = 0;
        self.int_status = self.int_status | irq::XFER_COMPLETE;
    }

    /// The device has answered the fetch of the current sector, leaving its
    /// bytes in the staging area when `ok`.
    pub fn sector_fetched(&mut self, ok: bool)
        ensures
            final(self)@ == old(self)@.fetched(ok),
            final(self).units == old(self).units,
    {
        if ok {
            self.buf_pos = 0;
            self.state = State::ReadReady;
            self.status = status::DRQ;
            self.int_status = self.int_status | irq::XFER_COMPLETE;
        } else {
            self.fail();
        }
    }

    fn prepare_sector(&mut self)
        ensures
            final(self)@ == old(self)@.prepared(),
            final(self).units == old(self).units,
    {
        self.buf_pos = 0;
        self.state = State::WriteReady;
        self.status = status::DRQ;
    }

    /// The device has answered the commit of the current sector.
    pub fn sector_committed(&mut self, ok: bool)
        requires
            old(self).sectors_left > 0,
        ensures
            final(self)@ == old(self)@.committed(ok),
            final(self).units == old(self).units,
    {
        if ok {
            self.sectors_left = self.sectors_left - 1;
            self.int_status = self.int_status | irq::XFER_COMPLETE;
            if self.sectors_left == 0 {
                self.state = State::Idle;
                self.status = 0;
            } else {
                self.current_lba = self.current_lba.wrapping_add(1);
                self.prepare_sector();
            }
        } else {
            self.fail();
        }
    }

    fn complete_flush(&mut self)
        ensures
            final(self)@ == old(self)@.flushed(),
            final(self).units == old(self).units,
    {
        self.state = State::Idle;
        self.status = 0;
        self.int_status = self.int_status | irq::XFER_COMPLETE;
    }

    fn data_read(&mut self) -> (byte: u8)
        requires
            old(self)@.wf(),
        ensures
            final(self)@.wf(),
            (byte, final(self)@) == old(self)@.data_read(),
            final(self).units == old(self).units,
    {
        if self.state != State::ReadReady {
            return 0;
        }
        let byte: u8 = self.sector_buf[self.buf_pos];
        self.buf_pos = self.buf_pos + 1;
        if self.buf_pos >= SECTOR_BYTES {
            self.sectors_left = self.sectors_left - 1;
            if self.sectors_left == 0 {
                self.state = State::Idle;
                self.status = 0;
            } else {
                // The next sector is not fetched inline: the device works
                // only in ticks.
                self.current_lba = self.current_lba.wrapping_add(1);
                self.state = State::ReadPending;
                self.status = status::BUSY;
                self.ticks_left = TICKS_PER_SECTOR;
            }
        }
        byte
    }

    fn data_write(&mut self, value: u8)
        requires
            old(self)@.wf(),
        ensures
            final(self)@.wf(),
            final(self)@ == old(self)@.data_written(value),
            final(self).units == old(self).units,
    {
        if self.state != State::WriteReady {
            return;
        }
        self.sector_buf[self.buf_pos] = value;
        self.buf_pos = self.buf_pos + 1;
        if self.buf_pos >= SECTOR_BYTES {
            self.state = State::WriteCommitting;
            self.status = status::BUSY;
            self.ticks_left = TICKS_PER_SECTOR;
        }
    }
}

} // verus!
