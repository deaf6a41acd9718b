//! What holds of the card whatever the guest and the devices do.

use crate::be;
use crate::block;
use crate::block::Transfer;
use crate::hostblk;
use crate::hostblk::cmd;
use crate::hostblk::err;
use crate::hostblk::reg;
use crate::hostblk::{
    Descriptor, Hostblk, HostblkState, COMPLETION_QUEUE_CAPACITY, SUBMIT_QUEUE_CAPACITY,
};
use crate::memory::GuestRam;
use vstd::prelude::*;

verus! {

/// The card after a longword write to the doorbell, most significant byte
/// first.
pub open spec fn rung(s: HostblkState, ptr: u32) -> HostblkState {
    s.reg_written(reg::DOORBELL, be::byte_lane(ptr, 0)).reg_written(
        (reg::DOORBELL + 1) as u32,
        be::byte_lane(ptr, 1),
    ).reg_written((reg::DOORBELL + 2) as u32, be::byte_lane(ptr, 2)).reg_written(
        (reg::DOORBELL + 3) as u32,
        be::byte_lane(ptr, 3),
    )
}

/// A doorbell write queues exactly the address written, behind everything
/// already queued; past the ring's depth it is dropped and counted. It
/// completes nothing.
pub proof fn doorbell_queues_or_counts(s: HostblkState, ptr: u32)
    ensures
        s.submitted.len() < SUBMIT_QUEUE_CAPACITY ==> rung(s, ptr).submitted == s.submitted.push(
            ptr,
        ) && rung(s, ptr).submit_overflow == s.submit_overflow,
        s.submitted.len() >= SUBMIT_QUEUE_CAPACITY ==> rung(s, ptr).submitted == s.submitted
            && rung(s, ptr).submit_overflow == s.submit_overflow.wrapping_add(1),
        rung(s, ptr).completed == s.completed,
{
    let (a, b, c, d) = (
        be::byte_lane(ptr, 0),
        be::byte_lane(ptr, 1),
        be::byte_lane(ptr, 2),
        be::byte_lane(ptr, 3),
    );
    let v0 = s.doorbell_acc;
    let v1 = be::with_lane(v0, 0, a);
    let v2 = be::with_lane(v1, 1, b);
    let v3 = be::with_lane(v2, 2, c);
    let v4 = be::with_lane(v3, 3, d);
    assert(v4 == ptr) by {
        be::lanes_are_independent(v0, 0, 0, a);
        be::lanes_are_independent(v1, 1, 0, b);
        be::lanes_are_independent(v2, 2, 0, c);
        be::lanes_are_independent(v2, 2, 1, c);
        be::lanes_are_independent(v3, 3, 0, d);
        be::lanes_are_independent(v3, 3, 1, d);
        be::lanes_are_independent(v3, 3, 2, d);
        be::lanes_are_independent(v4, 0, 1, d);
        be::lanes_are_independent(ptr, 0, 1, d);
    }
}

/// A tick completes the oldest submission and no other, behind every
/// undrained completion: nothing is lost, duplicated or reordered, and
/// neither queue outgrows its depth.
pub proof fn completions_are_never_lost(s: HostblkState, error: u8, actual: u32)
    requires
        s.can_run(),
        s.submitted.len() <= SUBMIT_QUEUE_CAPACITY,
    ensures
        s.ran(error, actual).submitted.len() + s.ran(error, actual).completed.len()
            == s.submitted.len() + s.completed.len(),
        s.ran(error, actual).completed.len() <= COMPLETION_QUEUE_CAPACITY,
        s.ran(error, actual).submitted.len() <= SUBMIT_QUEUE_CAPACITY,
        s.ran(error, actual).completed.drop_last() == s.completed,
        s.ran(error, actual).completed.last().ptr == s.submitted[0],
        s.ran(error, actual).submit_overflow == s.submit_overflow,
{
    assert(s.ran(error, actual).completed.drop_last() =~= s.completed);
}

/// Acknowledging takes completions off in the order they were queued: the
/// head becomes the next one, and an empty queue stays empty.
pub proof fn completions_drain_in_order(s: HostblkState, value: u8)
    ensures
        ({
            let next = s.reg_written((reg::COMPLETION_ADVANCE + 3) as u32, value);
            &&& s.completed.len() > 1 ==> next.head() == s.completed[1]
            &&& s.completed.len() <= 1 ==> next.completed.len() == 0 && next.head().ptr == 0
            &&& next.submitted == s.submitted
        }),
{
}

/// The four bytes of the capacity register spell the depth at which the
/// doorbell starts dropping, so a driver that stays below it never loses a
/// request.
pub proof fn advertised_capacity_is_the_real_depth(h: Hostblk, ptr: u32)
    ensures
        ({
            let shown = be::be32(
                be::be16(
                    h.reg_value(reg::SUBMIT_CAPACITY),
                    h.reg_value((reg::SUBMIT_CAPACITY + 1) as u32),
                ),
                be::be16(
                    h.reg_value((reg::SUBMIT_CAPACITY + 2) as u32),
                    h.reg_value((reg::SUBMIT_CAPACITY + 3) as u32),
                ),
            );
            &&& shown == SUBMIT_QUEUE_CAPACITY
            &&& h@.submitted.len() < shown ==> rung(h@, ptr).submitted == h@.submitted.push(ptr)
        }),
{
    be::lanes_are_independent(SUBMIT_QUEUE_CAPACITY as u32, 0, 0, 0);
    doorbell_queues_or_counts(h@, ptr);
}

/// An unselected or absent unit answers every discovery register with zero.
pub proof fn absent_units_read_zero(h: Hostblk, offset: u32)
    requires
        !h.attached(h.unit_select),
        reg::UNIT_PRESENT <= offset < reg::DOORBELL,
    ensures
        h.reg_value(offset) == 0,
{
    be::lanes_are_independent(0, 0, 0, 0);
    assert(be::byte_lane(0, 0) == 0 && be::byte_lane(0, 1) == 0 && be::byte_lane(0, 2) == 0
        && be::byte_lane(0, 3) == 0);
}

/// The boot ROM lies byte for byte where the board's `er_InitDiagVec` says
/// the DiagArea starts, the window past it reads zero, and no register
/// write changes it.
pub proof fn boot_rom_is_served_where_advertised(h: Hostblk, i: int, offset: u32, value: u8)
    requires
        0 <= i,
        hostblk::ROM_BASE + i <= u32::MAX,
    ensures
        h.reg_value((hostblk::ROM_BASE + i) as u32) == (if i < h@.diag_rom.len() {
            h@.diag_rom[i]
        } else {
            0
        }),
        h@.reg_written(offset, value).diag_rom == h@.diag_rom,
{
}

/// What a completion promises: success of a transfer moves the whole length,
/// a device failure a whole number of sectors short of it, and every
/// rejection moves nothing, asks nothing of any device and changes no RAM.
pub proof fn completion_reports_what_moved(
    h: Hostblk,
    ptr: u32,
    ram: GuestRam,
    asked: Seq<Transfer>,
)
    requires
        h.may_ask(ptr, ram, asked),
    ensures
        ({
            let desc = hostblk::descriptor_at(ram, ptr);
            let (error, actual) = h.completion(ptr, ram, asked);
            &&& h.rejection(ptr, ram) is Some ==> asked.len() == 0 && error == h.rejection(
                ptr,
                ram,
            )->0 && error != err::OK && error != err::IO_ERROR && actual == 0 && h.ram_after(
                ptr,
                ram,
                asked,
            ) == ram
            &&& error == err::OK && desc.moves_data() ==> actual == desc.length && asked.len()
                == desc.sector_count()
            &&& error == err::IO_ERROR ==> desc.moves_data() && actual < desc.length && actual % 512
                == 0 && !asked.last().ok
        }),
{
    let desc = hostblk::descriptor_at(ram, ptr);
    if h.rejection(ptr, ram) is None && desc.moves_data() {
        assert(hostblk::landed(asked) <= desc.sector_count());
        if hostblk::landed(asked) < desc.sector_count() {
            assert(!asked.last().ok);
        }
    }
}

/// Executing a request never changes a byte of guest RAM outside the buffer
/// its descriptor names, and only a read changes RAM at all.
pub proof fn requests_stay_inside_their_buffer(
    h: Hostblk,
    ptr: u32,
    ram: GuestRam,
    asked: Seq<Transfer>,
    at: int,
)
    requires
        h.may_ask(ptr, ram, asked),
        ram.bytes.dom().contains(at),
    ensures
        ({
            let desc = hostblk::descriptor_at(ram, ptr);
            let after = h.ram_after(ptr, ram, asked);
            &&& after.spans == ram.spans
            &&& desc.command != cmd::READ ==> after == ram
            &&& !(desc.buffer <= at < desc.buffer + desc.length) ==> after.bytes[at]
                == ram.bytes[at]
        }),
{
    let desc = hostblk::descriptor_at(ram, ptr);
    if h.rejection(ptr, ram) is None && desc.command == cmd::READ {
        assert(hostblk::delivered(asked, hostblk::landed(asked)).len() <= desc.length);
    }
}

/// A completed write leaves every sector of its range known to hold the
/// bytes it was handed.
proof fn lemma_written(
    log: Seq<Transfer>,
    asked: Seq<Transfer>,
    bytes: Seq<u8>,
    start: int,
    count: int,
    i: int,
)
    requires
        hostblk::is_run(asked, true, start, count),
        hostblk::hands_over(asked, bytes),
        hostblk::landed(asked) == count,
        0 <= i < count,
        0 <= start,
        start + count <= u64::MAX,
    ensures
        block::last_written(log + asked, (start + i) as u64) == Some(
            hostblk::sector_of(bytes, i),
        ),
{
    let lba = (start + i) as u64;
    let upto = asked.take(i + 1);
    let after = asked.skip(i + 1);
    assert(asked.len() == count);
    assert(log + asked =~= (log + upto) + after);
    assert forall|k: int| 0 <= k < after.len() implies !((#[trigger] after[k]).is_write
        && after[k].lba == lba) by {
        assert(after[k] == asked[i + 1 + k]);
    }
    block::untouched_sectors_keep_their_data(log + upto, after, lba);
    assert((log + upto).last() == asked[i]);
    assert(asked[i].ok) by {
        if i + 1 == asked.len() {
            assert(asked.last().ok);
        }
    }
}

/// What is written is what is read back. On a device that keeps its data, a
/// read that completes after a write of the same range has completed
/// delivers exactly the bytes the write was handed.
pub proof fn a_read_gives_back_what_was_written(
    log: Seq<Transfer>,
    bytes: Seq<u8>,
    start: int,
    count: int,
    written: Seq<Transfer>,
    read: Seq<Transfer>,
)
    requires
        0 <= start,
        0 <= count,
        start + count <= u64::MAX,
        bytes.len() == count * 512,
        hostblk::is_run(written, true, start, count),
        hostblk::hands_over(written, bytes),
        hostblk::landed(written) == count,
        hostblk::is_run(read, false, start, count),
        hostblk::landed(read) == count,
        block::keeps_data(log + written + read),
    ensures
        hostblk::delivered(read, count) == bytes,
{
    let all = log + written + read;
    let base = log + written;
    assert forall|i: int| 0 <= i < count implies #[trigger] read[i].data == hostblk::sector_of(
        bytes,
        i,
    ) by {
        let at = base.len() + i;
        assert(all[at] == read[i]);
        assert(read[i].ok) by {
            if i + 1 == read.len() {
                assert(read.last().ok);
            }
        }
        let lba = (start + i) as u64;
        let earlier = read.take(i);
        assert(all.take(at) =~= base + earlier);
        assert forall|k: int| 0 <= k < earlier.len() implies !((#[trigger] earlier[k]).is_write
            && earlier[k].lba == lba) by {
            assert(earlier[k] == read[k]);
        }
        block::untouched_sectors_keep_their_data(base, earlier, lba);
        lemma_written(log, written, bytes, start, count, i);
        assert(block::last_written(all.take(at), lba) == Some(hostblk::sector_of(bytes, i)));
    }
    assert forall|k: int| 0 <= k < count * 512 implies #[trigger] hostblk::delivered(read, count)[k]
        == bytes[k] by {
        assert(0 <= k / 512 < count);
        assert(read[k / 512].data == hostblk::sector_of(bytes, k / 512));
        assert(k / 512 * 512 + k % 512 == k);
    }
    assert(hostblk::delivered(read, count) =~= bytes);
}

/// The card's promise to its guest: a completed read puts into its buffer
/// exactly what an earlier completed write of the same range took from its
/// own, on a device that keeps its data and was asked nothing in between.
pub proof fn a_completed_read_returns_what_was_written(
    writer: Hostblk,
    wptr: u32,
    wram: GuestRam,
    written: Seq<Transfer>,
    reader: Hostblk,
    rptr: u32,
    rram: GuestRam,
    read: Seq<Transfer>,
    log: Seq<Transfer>,
)
    requires
        rram.backed(),
        writer.may_ask(wptr, wram, written),
        reader.may_ask(rptr, rram, read),
        hostblk::descriptor_at(wram, wptr).command == cmd::WRITE,
        hostblk::descriptor_at(rram, rptr).command == cmd::READ,
        hostblk::descriptor_at(wram, wptr).offset == hostblk::descriptor_at(rram, rptr).offset,
        hostblk::descriptor_at(wram, wptr).length == hostblk::descriptor_at(rram, rptr).length,
        writer.completion(wptr, wram, written).0 == err::OK,
        reader.completion(rptr, rram, read).0 == err::OK,
        block::keeps_data(log + written + read),
    ensures
        ({
            let from = hostblk::descriptor_at(wram, wptr);
            let to = hostblk::descriptor_at(rram, rptr);
            reader.ram_after(rptr, rram, read).read(to.buffer, to.length as int) == wram.read(
                from.buffer,
                from.length as int,
            )
        }),
{
    let from = hostblk::descriptor_at(wram, wptr);
    let to = hostblk::descriptor_at(rram, rptr);
    let count = to.sector_count();
    let bytes = wram.read(from.buffer, from.length as int);
    assert(writer.rejection(wptr, wram) is None);
    assert(reader.rejection(rptr, rram) is None);
    assert(hostblk::landed(written) == count);
    assert(hostblk::landed(read) == count);
    a_read_gives_back_what_was_written(log, bytes, to.start_lba(), count, written, read);
    crate::memory::stored_data_reads_back(rram, to.buffer, bytes);
}

/// A write-protected unit's device is never asked to write.
pub proof fn protected_units_are_never_written(
    h: Hostblk,
    ptr: u32,
    ram: GuestRam,
    asked: Seq<Transfer>,
    i: int,
)
    requires
        h.may_ask(ptr, ram, asked),
        h.attached(hostblk::descriptor_at(ram, ptr).unit),
        h.units@[hostblk::descriptor_at(ram, ptr).unit as int]->0.write_protect,
        0 <= i < asked.len(),
    ensures
        !asked[i].is_write,
{
}

/// The unit select register only aims the discovery registers: queued
/// requests name their own unit, so selecting another one disturbs neither
/// queue and no interrupt.
pub proof fn unit_select_only_aims_discovery(s: HostblkState, value: u8)
    ensures
        ({
            let next = s.reg_written((reg::UNIT_SELECT + 3) as u32, value);
            &&& next.unit_select == value
            &&& next.submitted == s.submitted
            &&& next.completed == s.completed
            &&& next.int_enable == s.int_enable
            &&& next.doorbell_acc == s.doorbell_acc
        }),
{
}

/// Transfers of one request leave every sector outside its range as it was.
pub proof fn other_sectors_are_left_alone(
    h: Hostblk,
    ptr: u32,
    ram: GuestRam,
    asked: Seq<Transfer>,
    log: Seq<Transfer>,
    lba: u64,
)
    requires
        h.may_ask(ptr, ram, asked),
        ({
            let desc = hostblk::descriptor_at(ram, ptr);
            desc.command != cmd::WRITE || !(desc.start_lba() <= lba < desc.start_lba()
                + desc.sector_count())
        }),
    ensures
        block::last_written(log + asked, lba) == block::last_written(log, lba),
{
    block::untouched_sectors_keep_their_data(log, asked, lba);
}

/// A transfer that is not rejected asks its device only for sectors the
/// device has.
pub proof fn devices_are_asked_in_range(
    desc: Descriptor,
    is_write: bool,
    write_protect: bool,
    total: u64,
    i: int,
)
    requires
        desc.rejection(is_write, write_protect, total) is None,
        0 <= i < desc.sector_count(),
    ensures
        0 <= desc.start_lba() + i < total,
        (desc.start_lba() + i) * 512 == desc.offset + i * 512,
        !(is_write && write_protect),
{
}

} // verus!
