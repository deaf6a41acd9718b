//! What holds of the card whatever the guest writes.

use crate::block;
use crate::block::{Transfer, SECTOR_BYTES};
use crate::mirage::cmd;
use crate::mirage::irq;
use crate::mirage::reg;
use crate::mirage::status;
use crate::mirage::{Card, State, TICKS_PER_SECTOR};
use vstd::prelude::*;

verus! {

/// While an operation waits, no register access completes it: the state,
/// the `BUSY` status, the target and the tick count stay, and `DATA` reads
/// zero.
pub proof fn only_a_tick_completes_a_waiting_operation(
    c: Card,
    offset: u32,
    value: u8,
    capacity: Option<u64>,
)
    requires
        c.wf(),
        c.state.waiting(),
    ensures
        c.reg_read(offset).1 == c,
        c.data_read().0 == 0,
        ({
            let w = c.reg_written(offset, value, capacity);
            &&& w.state == c.state
            &&& w.status == status::BUSY
            &&& w.ticks_left == c.ticks_left
            &&& w.active_unit == c.active_unit
            &&& w.current_lba == c.current_lba
            &&& w.sectors_left == c.sectors_left
            &&& w.fifo == c.fifo
        }),
{
}

/// A command never completes in the access that issues it: what it leaves
/// behind is a busy card waiting for a tick, or an immediate rejection.
pub proof fn a_command_waits_or_is_rejected(c: Card, code: u8, capacity: Option<u64>)
    requires
        c.wf(),
        c.state == State::Idle,
    ensures
        ({
            let after = c.commanded(code, capacity);
            ||| after.state.waiting() && after.status == status::BUSY && after.ticks_left
                == TICKS_PER_SECTOR && after.int_status == c.int_status
            ||| after == c.failed()
        }),
{
}

/// A transfer is accepted exactly when its unit is attached, it moves at
/// least one sector, and its range lies inside the device.
pub proof fn accepted_transfers_are_in_range(c: Card, code: u8, capacity: Option<u64>)
    requires
        c.wf(),
        c.state == State::Idle,
        code == cmd::READ || code == cmd::WRITE,
    ensures
        (c.commanded(code, capacity).state != State::Idle) == (capacity is Some && c.count > 0
            && c.lba + c.count <= capacity->0),
        c.commanded(code, capacity).state != State::Idle ==> c.commanded(code, capacity).current_lba
            + c.commanded(code, capacity).sectors_left <= capacity->0,
{
}

/// A command written while a transfer is in flight changes nothing.
pub proof fn a_command_in_flight_is_ignored(c: Card, code: u8, capacity: Option<u64>)
    requires
        c.state != State::Idle,
    ensures
        c.commanded(code, capacity) == c,
{
}

/// A rejected command leaves an idle card with `ERR`, and raises the
/// completion interrupt.
pub proof fn rejection_is_observable(c: Card)
    ensures
        c.failed().state == State::Idle,
        c.failed().status == status::ERR,
        c.failed().int_status & irq::XFER_COMPLETE == irq::XFER_COMPLETE,
{
    let i = c.int_status;
    assert((i | 0x01) & 0x01 == 0x01) by (bit_vector);
}

/// The card after `n` reads of `DATA`.
pub open spec fn drained(c: Card, n: nat) -> Card
    decreases n,
{
    if n == 0 {
        c
    } else {
        drained(c, (n - 1) as nat).data_read().1
    }
}

pub(crate) proof fn lemma_drained(c: Card, n: nat)
    requires
        c.wf(),
        c.state == State::ReadReady,
        c.pos == 0,
        n < SECTOR_BYTES,
    ensures
        drained(c, n) == (Card { pos: n as usize, ..c }),
    decreases n,
{
    if n > 0 {
        lemma_drained(c, (n - 1) as nat);
    }
}

/// Draining a ready sector returns its bytes in order, stays in the data
/// phase for 511 reads, and on the 512th either finishes the transfer or
/// goes back to `BUSY` for the next sector: every sector needs a tick of
/// its own.
pub proof fn a_sector_drains_in_order(c: Card, n: nat)
    requires
        c.wf(),
        c.state == State::ReadReady,
        c.pos == 0,
        n < SECTOR_BYTES,
    ensures
        drained(c, n).state == State::ReadReady,
        drained(c, n).data_read().0 == c.fifo[n as int],
        ({
            let end = drained(c, SECTOR_BYTES as nat);
            if c.sectors_left == 1 {
                end.state == State::Idle && end.status == 0
            } else {
                end.state == State::ReadPending && end.status == status::BUSY && end.current_lba
                    == c.current_lba.wrapping_add(1) && end.sectors_left == c.sectors_left - 1
            }
        }),
{
    lemma_drained(c, n);
    lemma_drained(c, (SECTOR_BYTES - 1) as nat);
    assert(drained(c, SECTOR_BYTES as nat) == drained(
        c,
        (SECTOR_BYTES - 1) as nat,
    ).data_read().1);
}

/// The card after a run of bytes is written to `DATA`.
pub open spec fn filled(c: Card, bytes: Seq<u8>) -> Card
    decreases bytes.len(),
{
    if bytes.len() == 0 {
        c
    } else {
        filled(c, bytes.drop_last()).data_written(bytes.last())
    }
}

pub(crate) proof fn lemma_filled(c: Card, bytes: Seq<u8>)
    requires
        c.wf(),
        c.state == State::WriteReady,
        c.pos == 0,
        bytes.len() < SECTOR_BYTES,
    ensures
        filled(c, bytes) == (Card {
            pos: bytes.len() as usize,
            fifo: bytes + c.fifo.skip(bytes.len() as int),
            ..c
        }),
    decreases bytes.len(),
{
    if bytes.len() > 0 {
        lemma_filled(c, bytes.drop_last());
        assert((bytes.drop_last() + c.fifo.skip(bytes.len() - 1)).update(
            bytes.len() - 1,
            bytes.last(),
        ) =~= bytes + c.fifo.skip(bytes.len() as int));
    } else {
        assert(bytes + c.fifo.skip(0) =~= c.fifo);
    }
}

/// Pushing a full sector stages exactly those bytes, in order, and leaves
/// the card busy until a tick commits them.
pub proof fn a_full_sector_is_staged_for_commit(c: Card, bytes: Seq<u8>)
    requires
        c.wf(),
        c.state == State::WriteReady,
        c.pos == 0,
        bytes.len() == SECTOR_BYTES,
    ensures
        filled(c, bytes).fifo == bytes,
        filled(c, bytes).state == State::WriteCommitting,
        filled(c, bytes).status == status::BUSY,
        filled(c, bytes).current_lba == c.current_lba,
{
    let before = bytes.drop_last();
    lemma_filled(c, before);
    assert((before + c.fifo.skip(SECTOR_BYTES - 1)).update(SECTOR_BYTES - 1, bytes.last())
        =~= bytes);
}

/// What is written is what is read back. Push a sector through `DATA` and
/// commit it; on a device that keeps its data, a later fetch of the same
/// sector, with no write to it in between, stages exactly the bytes pushed,
/// and draining returns them in order.
pub proof fn a_sector_reads_back_as_written(
    c: Card,
    bytes: Seq<u8>,
    log: Seq<Transfer>,
    between: Seq<Transfer>,
    fetch: Transfer,
    reader: Card,
    n: nat,
)
    requires
        c.wf(),
        c.state == State::WriteReady,
        c.pos == 0,
        bytes.len() == SECTOR_BYTES,
        forall|i: int|
            0 <= i < between.len() ==> !((#[trigger] between[i]).is_write && between[i].lba
                == c.current_lba),
        !fetch.is_write,
        fetch.ok,
        fetch.lba == c.current_lba,
        reader.wf(),
        reader.state == State::ReadPending,
        n < SECTOR_BYTES,
        ({
            let commit = Transfer {
                is_write: true,
                lba: c.current_lba as u64,
                data: filled(c, bytes).fifo,
                ok: true,
            };
            block::keeps_data((log.push(commit) + between).push(fetch))
        }),
    ensures
        ({
            let ready = (Card { fifo: fetch.data, ticks_left: 0, ..reader }).fetched(true);
            &&& ready.fifo == bytes
            &&& drained(ready, n).data_read().0 == bytes[n as int]
        }),
{
    a_full_sector_is_staged_for_commit(c, bytes);
    let lba = c.current_lba as u64;
    let commit = Transfer { is_write: true, lba, data: bytes, ok: true };
    let before = log.push(commit) + between;
    let all = before.push(fetch);
    assert(log.push(commit).last() == commit);
    assert(block::last_written(log.push(commit), lba) == Some(bytes));
    block::untouched_sectors_keep_their_data(log.push(commit), between, lba);
    let at = before.len() as int;
    assert(all.take(at) =~= before);
    assert(all[at] == fetch);
    assert(fetch.data == bytes);
    let ready = (Card { fifo: fetch.data, ticks_left: 0, ..reader }).fetched(true);
    a_sector_drains_in_order(ready, n);
}

/// Acknowledging clears exactly the bits written, and touches nothing else.
pub proof fn acknowledge_clears_what_it_names(
    c: Card,
    value: u8,
    capacity: Option<u64>,
    bit: u8,
)
    ensures
        ({
            let w = c.reg_written((reg::INT_STATUS + 3) as u32, value, capacity);
            &&& value & bit == 0 ==> w.int_status & bit == c.int_status & bit
            &&& w.int_status & value == 0
            &&& w == (Card { int_status: w.int_status, ..c })
        }),
{
    let i = c.int_status;
    assert(value & bit == 0 ==> (i & !value) & bit == i & bit) by (bit_vector);
    assert((i & !value) & value == 0) by (bit_vector);
}

/// Every register access and every completion keeps the handshake
/// consistent.
pub proof fn the_handshake_stays_consistent(
    c: Card,
    offset: u32,
    value: u8,
    capacity: Option<u64>,
    ok: bool,
)
    requires
        c.wf(),
    ensures
        c.reg_read(offset).1.wf(),
        (capacity is Some ==> c.unit_select < crate::mirage::UNIT_COUNT) ==> c.reg_written(
            offset,
            value,
            capacity,
        ).wf(),
        c.state == State::ReadPending ==> (Card { ticks_left: 0, ..c }).fetched(ok).wf(),
        c.state == State::WriteCommitting ==> (Card { ticks_left: 0, ..c }).committed(ok).wf(),
{
}

} // verus!
