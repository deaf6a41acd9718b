//! What the guest sees of the card: numbers read out of its registers byte
//! by byte, and requests laid out byte by byte in guest RAM.

use crate::be;
use crate::block::Transfer;
use crate::hostblk;
use crate::hostblk::{Hostblk, HostblkState};
use crate::memory::GuestRam;
use vstd::prelude::*;

verus! {

/// The number that `n` bytes from `at` on spell, most significant first.
pub open spec fn spelled(d: Seq<u8>, at: int, n: nat) -> int
    decreases n,
{
    if n == 0 {
        0
    } else {
        spelled(d, at, (n - 1) as nat) * 256 + d[at + n - 1]
    }
}

/// The number that the four bytes of a register slot spell.
pub open spec fn shown(h: Hostblk, at: int) -> int {
    ((h.reg_value(at as u32) * 256 + h.reg_value((at + 1) as u32)) * 256 + h.reg_value(
        (at + 2) as u32,
    )) * 256 + h.reg_value((at + 3) as u32)
}

/// The bytes of a longword are its digits in base 256.
proof fn lemma_lanes(v: u32)
    ensures
        ((be::byte_lane(v, 0) * 256 + be::byte_lane(v, 1)) * 256 + be::byte_lane(v, 2)) * 256
            + be::byte_lane(v, 3) == v,
{
}

/// The discovery registers describe the selected unit: attached or not,
/// protected or not, how often its medium changed, and its capacity over two
/// registers, the upper half first.
pub proof fn registers_show_the_selected_unit(h: Hostblk)
    ensures
        shown(h, 0x00) == h@.unit_select,
        h@.unit_select < 8 && h.units@[h@.unit_select as int] is Some ==> {
            let unit = h.units@[h@.unit_select as int]->0;
            &&& shown(h, 0x04) == 1
            &&& shown(h, 0x08) == (if unit.write_protect {
                1int
            } else {
                0
            })
            &&& shown(h, 0x0C) == unit.change_count
            &&& shown(h, 0x10) * 0x1_0000_0000 + shown(h, 0x14) == unit.device.sectors()
        },
        !(h@.unit_select < 8 && h.units@[h@.unit_select as int] is Some) ==> {
            &&& shown(h, 0x04) == 0
            &&& shown(h, 0x08) == 0
            &&& shown(h, 0x0C) == 0
            &&& shown(h, 0x10) == 0
            &&& shown(h, 0x14) == 0
        },
{
    let total = h.selected_sectors();
    lemma_lanes((total / 0x1_0000_0000) as u32);
    lemma_lanes((total % 0x1_0000_0000) as u32);
    lemma_lanes(0);
    lemma_lanes(h.units@[h@.unit_select as int]->0.change_count);
}

/// The completion registers show the oldest completion: whose request it
/// was, how it ended and how many bytes moved. Beside them stand how many
/// are queued, how many submissions were dropped, the interrupt enable, the
/// depth of the submission ring and the protocol version. The two registers
/// that only take writes read zero.
pub proof fn registers_show_the_oldest_completion(h: Hostblk)
    requires
        h@.completed.len() <= 8,
    ensures
        h@.completed.len() > 0 ==> {
            &&& shown(h, 0x20) == h@.completed[0].ptr
            &&& shown(h, 0x24) == h@.completed[0].error
            &&& shown(h, 0x28) == h@.completed[0].actual
        },
        h@.completed.len() == 0 ==> {
            &&& shown(h, 0x20) == 0
            &&& shown(h, 0x24) == 0
            &&& shown(h, 0x28) == 0
        },
        shown(h, 0x30) == h@.completed.len(),
        shown(h, 0x1C) == h@.submit_overflow,
        shown(h, 0x34) == h@.int_enable,
        shown(h, 0x38) == 8,
        shown(h, 0x3C) == 1,
        shown(h, 0x18) == 0,
        shown(h, 0x2C) == 0,
{
    lemma_lanes(h@.head().ptr);
    lemma_lanes(h@.head().actual);
    lemma_lanes(h@.completed.len() as u32);
    lemma_lanes(h@.submit_overflow);
    lemma_lanes(8);
    lemma_lanes(1);
    lemma_lanes(0);
}

/// Replacing one byte of a longword, told in arithmetic.
proof fn lemma_set_lane(v: u32, lane: int, byte: u8)
    requires
        0 <= lane < 4,
    ensures
        be::with_lane(v, lane, byte) == (if lane == 0 {
            byte * 0x100_0000 + v % 0x100_0000
        } else if lane == 1 {
            v / 0x100_0000 * 0x100_0000 + byte * 0x1_0000 + v % 0x1_0000
        } else if lane == 2 {
            v / 0x1_0000 * 0x1_0000 + byte * 256 + v % 256
        } else {
            v / 256 * 256 + byte
        }),
{
}

/// Four bytes written to the doorbell in order submit the address they
/// spell, once and behind every earlier one. Eight submissions wait at most;
/// one more is only counted.
pub proof fn doorbell_submits_what_it_spells(s: HostblkState, a: u8, b: u8, c: u8, d: u8)
    ensures
        ({
            let begun = s.reg_written(0x18, a).reg_written(0x19, b).reg_written(0x1A, c);
            let rung = begun.reg_written(0x1B, d);
            let ptr = ((a * 256 + b) * 256 + c) * 256 + d;
            &&& begun.submitted == s.submitted
            &&& s.submitted.len() < 8 ==> rung.submitted == s.submitted.push(ptr as u32)
                && rung.submit_overflow == s.submit_overflow
            &&& s.submitted.len() >= 8 ==> rung.submitted == s.submitted && rung.submit_overflow
                == (if s.submit_overflow == u32::MAX {
                0
            } else {
                s.submit_overflow + 1
            })
            &&& rung.completed == s.completed
            &&& rung.int_enable == s.int_enable
            &&& rung.unit_select == s.unit_select
        }),
{
    let v0 = s.doorbell_acc;
    let v1 = be::with_lane(v0, 0, a);
    let v2 = be::with_lane(v1, 1, b);
    let v3 = be::with_lane(v2, 2, c);
    let v4 = be::with_lane(v3, 3, d);
    lemma_set_lane(v0, 0, a);
    lemma_set_lane(v1, 1, b);
    lemma_set_lane(v2, 2, c);
    lemma_set_lane(v3, 3, d);
    assert(v1 / 0x100_0000 == a);
    assert(v2 / 0x1_0000 == a * 256 + b);
    assert(v3 / 256 == (a * 256 + b) * 256 + c);
    assert(v4 == ((a * 256 + b) * 256 + c) * 256 + d);
    lemma_rung(s, a, b, c, d);
}

/// The doorbell's bytes go one by one into its latch, and the last submits
/// what the latch then holds.
proof fn lemma_rung(s: HostblkState, a: u8, b: u8, c: u8, d: u8)
    ensures
        ({
            let begun = s.reg_written(0x18, a).reg_written(0x19, b).reg_written(0x1A, c);
            let v3 = be::with_lane(
                be::with_lane(be::with_lane(s.doorbell_acc, 0, a), 1, b),
                2,
                c,
            );
            let v4 = be::with_lane(v3, 3, d);
            &&& begun == (HostblkState { doorbell_acc: v3, ..s })
            &&& begun.reg_written(0x1B, d) == (HostblkState { doorbell_acc: v4, ..begun }).submit(
                v4,
            )
        }),
{
    let s1 = s.reg_written(0x18, a);
    assert(s1 == (HostblkState { doorbell_acc: be::with_lane(s.doorbell_acc, 0, a), ..s }));
    let s2 = s1.reg_written(0x19, b);
    assert(s2 == (HostblkState { doorbell_acc: be::with_lane(s1.doorbell_acc, 1, b), ..s1 }));
    let s3 = s2.reg_written(0x1A, c);
    assert(s3 == (HostblkState { doorbell_acc: be::with_lane(s2.doorbell_acc, 2, c), ..s2 }));
}

/// The remaining writable registers: the unit select, the interrupt enable
/// and the acknowledgement, which takes the oldest completion off. Each
/// changes only what it names.
pub proof fn small_registers_do_one_thing(s: HostblkState, value: u8)
    ensures
        s.reg_written(0x03, value) == (HostblkState { unit_select: value, ..s }),
        s.reg_written(0x37, value) == (HostblkState { int_enable: value, ..s }),
        s.completed.len() > 0 ==> s.reg_written(0x2F, value) == (HostblkState {
            completed: s.completed.skip(1),
            ..s
        }),
        s.completed.len() == 0 ==> s.reg_written(0x2F, value) == s,
{
    if s.completed.len() > 0 {
        assert(s.completed.drop_first() =~= s.completed.skip(1));
    }
}

/// No other byte of the register file takes a write.
pub proof fn other_bytes_take_no_write(s: HostblkState, offset: u32, value: u8)
    requires
        offset != 0x03,
        !(0x18 <= offset < 0x1C),
        offset != 0x2F,
        offset != 0x37,
    ensures
        s.reg_written(offset, value) == s,
{
}

proof fn lemma_spelled_four(d: Seq<u8>, at: int)
    ensures
        spelled(d, at, 4) == hostblk::long_at(d, at),
{
    reveal_with_fuel(spelled, 5);
}

proof fn lemma_spelled_eight(d: Seq<u8>, at: int)
    ensures
        spelled(d, at, 8) == spelled(d, at, 4) * 0x1_0000_0000 + spelled(d, at + 4, 4),
{
    reveal_with_fuel(spelled, 9);
}

/// What a request says: the command and the unit in its first two bytes,
/// then, past two reserved ones, the length in bytes, the offset on the unit
/// and the address of the buffer.
pub struct Request {
    pub command: int,
    pub unit: int,
    pub length: int,
    pub offset: int,
    pub buffer: int,
}

/// The request that lies in guest RAM at `ptr`.
pub open spec fn request_at(ram: GuestRam, ptr: u32) -> Request {
    let d = Seq::new(20, |i: int| ram.bytes[ptr + i]);
    Request {
        command: d[0] as int,
        unit: d[1] as int,
        length: spelled(d, 4, 4),
        offset: spelled(d, 8, 8),
        buffer: spelled(d, 16, 4),
    }
}

/// The bytes of a descriptor carry the request.
pub proof fn descriptor_carries_the_request(ram: GuestRam, ptr: u32)
    ensures
        ({
            let q = request_at(ram, ptr);
            let desc = hostblk::descriptor_at(ram, ptr);
            &&& desc.command == q.command
            &&& desc.unit == q.unit
            &&& desc.length == q.length
            &&& desc.offset == q.offset
            &&& desc.buffer == q.buffer
        }),
{
    let d = Seq::new(20, |i: int| ram.bytes[ptr + i]);
    assert(d =~= ram.read(ptr, 20));
    lemma_spelled_four(d, 4);
    lemma_spelled_four(d, 8);
    lemma_spelled_four(d, 12);
    lemma_spelled_four(d, 16);
    lemma_spelled_eight(d, 8);
}

/// Whether the card can find a request there and a unit to run it on.
pub open spec fn addressed(h: Hostblk, ptr: u32, ram: GuestRam) -> bool {
    let q = request_at(ram, ptr);
    &&& ptr % 4 == 0
    &&& ram.spans.contains((ptr, 20))
    &&& q.unit < 8
    &&& h.units@[q.unit] is Some
}

/// Whether a read (command 1) or write (command 2) fits its unit: whole
/// sectors of 512 bytes that the unit has, and no write on a protected one.
pub open spec fn transferable(h: Hostblk, ptr: u32, ram: GuestRam) -> bool {
    let q = request_at(ram, ptr);
    let unit = h.units@[q.unit]->0;
    &&& q.command == 1 || q.command == 2
    &&& !(q.command == 2 && unit.write_protect)
    &&& q.length > 0
    &&& q.length % 512 == 0
    &&& q.offset % 512 == 0
    &&& q.offset + q.length <= unit.device.sectors() * 512
    &&& ram.spans.contains((q.buffer as u32, q.length as u32))
}

proof fn lemma_sectors(offset: int, length: int, total: int)
    requires
        offset >= 0,
        length >= 0,
        offset % 512 == 0,
        length % 512 == 0,
    ensures
        offset / 512 + length / 512 > total <==> offset + length > total * 512,
{
}

/// A request runs exactly when nothing is wrong with it: it is aligned and
/// in RAM, names an attached unit, and is a flush (command 3) or a transfer
/// that fits its unit and whose buffer is in RAM.
pub proof fn sound_requests_run(h: Hostblk, ptr: u32, ram: GuestRam)
    ensures
        h.rejection(ptr, ram) is None <==> addressed(h, ptr, ram) && (request_at(ram, ptr).command
            == 3 || transferable(h, ptr, ram)),
{
    let q = request_at(ram, ptr);
    descriptor_carries_the_request(ram, ptr);
    if addressed(h, ptr, ram) && q.length % 512 == 0 && q.offset % 512 == 0 {
        lemma_sectors(q.offset, q.length, h.units@[q.unit]->0.device.sectors() as int);
    }
}

/// A request with one thing wrong is answered with the code for that thing,
/// and the code says what was wrong.
pub proof fn each_fault_has_its_code(h: Hostblk, ptr: u32, ram: GuestRam)
    ensures
        ({
            let q = request_at(ram, ptr);
            let unit = h.units@[q.unit]->0;
            let code = h.rejection(ptr, ram);
            let transfer = q.command == 1 || q.command == 2;
            let protected = q.command == 2 && unit.write_protect;
            let sized = q.length > 0 && q.length % 512 == 0;
            let within = q.offset + q.length <= unit.device.sectors() * 512;
            let buffered = ram.spans.contains((q.buffer as u32, q.length as u32));
            let found = ptr % 4 == 0 && ram.spans.contains((ptr, 20));
            &&& !found ==> code == Some(7u8)
            &&& found && !(q.unit < 8 && h.units@[q.unit] is Some) ==> code == Some(1u8)
            &&& addressed(h, ptr, ram) ==> {
                &&& !transfer && q.command != 3 ==> code == Some(3u8)
                &&& protected ==> code == Some(2u8)
                &&& transfer && !protected && !sized ==> code == Some(4u8)
                &&& transfer && !protected && sized && q.offset % 512 != 0 ==> code == Some(5u8)
                &&& transfer && !protected && sized && q.offset % 512 == 0 && !within ==> code
                    == Some(6u8)
                &&& transfer && !protected && sized && q.offset % 512 == 0 && within && !buffered
                    ==> code == Some(7u8)
            }
        }),
{
    let q = request_at(ram, ptr);
    descriptor_carries_the_request(ram, ptr);
    if addressed(h, ptr, ram) && q.length % 512 == 0 && q.offset % 512 == 0 {
        lemma_sectors(q.offset, q.length, h.units@[q.unit]->0.device.sectors() as int);
    }
}

/// How many of a request's sectors went through before the device failed,
/// if it did.
pub open spec fn through(asked: Seq<Transfer>) -> int {
    if forall|i: int| 0 <= i < asked.len() ==> (#[trigger] asked[i]).ok {
        asked.len() as int
    } else {
        asked.len() - 1
    }
}

/// A run's answers are all good but perhaps the last.
proof fn lemma_through(asked: Seq<Transfer>, is_write: bool, start: int, count: int)
    requires
        hostblk::is_run(asked, is_write, start, count),
        count > 0,
    ensures
        through(asked) == hostblk::landed(asked),
        0 <= through(asked) <= asked.len(),
        through(asked) == count <==> asked.len() == count && asked.last().ok,
{
    if asked.len() > 0 {
        if asked.last().ok {
            assert forall|i: int| 0 <= i < asked.len() implies (#[trigger] asked[i]).ok by {
                if i + 1 == asked.len() {
                    assert(asked[i] == asked.last());
                }
            }
        } else {
            assert(!asked[asked.len() - 1].ok);
        }
    }
}

/// A transfer asks its unit for the sectors that hold its bytes, one after
/// the other, and stops at the first failure. It completes with the number
/// of bytes that went through: all of them and code 0, or fewer and code 8.
pub proof fn transfers_ask_for_their_sectors(
    h: Hostblk,
    ptr: u32,
    ram: GuestRam,
    asked: Seq<Transfer>,
    i: int,
)
    requires
        h.may_ask(ptr, ram, asked),
        addressed(h, ptr, ram),
        transferable(h, ptr, ram),
    ensures
        ({
            let q = request_at(ram, ptr);
            let (code, moved) = h.completion(ptr, ram, asked);
            &&& asked.len() * 512 <= q.length
            &&& 0 <= i < asked.len() ==> asked[i].lba * 512 == q.offset + i * 512
                && asked[i].is_write == (q.command == 2)
            &&& 0 <= i < asked.len() - 1 ==> asked[i].ok
            &&& moved == through(asked) * 512
            &&& code == 0 <==> moved == q.length
            &&& code == 0 || code == 8
            &&& code == 8 ==> asked.len() > 0 && !asked.last().ok
        }),
{
    let q = request_at(ram, ptr);
    descriptor_carries_the_request(ram, ptr);
    sound_requests_run(h, ptr, ram);
    let desc = hostblk::descriptor_at(ram, ptr);
    assert(desc.sector_count() * 512 == q.length && desc.start_lba() * 512 == q.offset);
    lemma_through(asked, q.command == 2, desc.start_lba(), desc.sector_count());
    if asked.len() > 0 {
        assert(asked[asked.len() - 1].is_write == (q.command == 2));
    }
}

/// A read puts byte `k` of the range it names at byte `k` of its buffer, for
/// as many sectors as went through, and touches no other byte of RAM.
pub proof fn a_read_fills_its_buffer(
    h: Hostblk,
    ptr: u32,
    ram: GuestRam,
    asked: Seq<Transfer>,
    at: int,
)
    requires
        h.may_ask(ptr, ram, asked),
        addressed(h, ptr, ram),
        transferable(h, ptr, ram),
        request_at(ram, ptr).command == 1,
        ram.bytes.dom().contains(at),
    ensures
        ({
            let q = request_at(ram, ptr);
            let k = at - q.buffer;
            h.ram_after(ptr, ram, asked).bytes[at] == if 0 <= k < through(asked) * 512 {
                asked[k / 512].data[k % 512]
            } else {
                ram.bytes[at]
            }
        }),
{
    descriptor_carries_the_request(ram, ptr);
    sound_requests_run(h, ptr, ram);
    let desc = hostblk::descriptor_at(ram, ptr);
    lemma_through(asked, false, desc.start_lba(), desc.sector_count());
}

/// A write hands its unit the bytes of its buffer in order, and changes no
/// RAM.
pub proof fn a_write_hands_over_its_buffer(
    h: Hostblk,
    ptr: u32,
    ram: GuestRam,
    asked: Seq<Transfer>,
    i: int,
    j: int,
)
    requires
        h.may_ask(ptr, ram, asked),
        addressed(h, ptr, ram),
        transferable(h, ptr, ram),
        request_at(ram, ptr).command == 2,
        0 <= i < asked.len(),
        0 <= j < 512,
    ensures
        asked[i].data.len() == 512,
        asked[i].data[j] == ram.bytes[request_at(ram, ptr).buffer + i * 512 + j],
        h.ram_after(ptr, ram, asked) == ram,
{
    let q = request_at(ram, ptr);
    descriptor_carries_the_request(ram, ptr);
    sound_requests_run(h, ptr, ram);
    let desc = hostblk::descriptor_at(ram, ptr);
    let bytes = ram.read(desc.buffer, desc.length as int);
    assert(asked[i].data == hostblk::sector_of(bytes, i));
    assert(asked[i].data[j] == bytes[i * 512 + j]);
    assert(i * 512 + j < q.length);
}

/// A flush succeeds, moves nothing and asks nothing of any device.
pub proof fn a_flush_only_completes(h: Hostblk, ptr: u32, ram: GuestRam, asked: Seq<Transfer>)
    requires
        h.may_ask(ptr, ram, asked),
        addressed(h, ptr, ram),
        request_at(ram, ptr).command == 3,
    ensures
        asked.len() == 0,
        h.completion(ptr, ram, asked) == (0u8, 0u32),
        h.ram_after(ptr, ram, asked) == ram,
{
    descriptor_carries_the_request(ram, ptr);
    sound_requests_run(h, ptr, ram);
}

} // verus!
