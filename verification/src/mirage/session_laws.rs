//! Whole transfers as a driver sees them: what it programs byte by byte,
//! what the card then asks of its device, and the bytes that go through
//! `DATA`.

use crate::be;
use crate::mirage::laws;
use crate::mirage::{Card, State};
use vstd::prelude::*;

verus! {

/// The number that four bytes spell, most significant first.
pub open spec fn long(b: Seq<u8>) -> int {
    ((b[0] * 256 + b[1]) * 256 + b[2]) * 256 + b[3]
}

/// The card with the unit, the first sector and the number of sectors
/// programmed.
pub open spec fn programmed(
    c: Card,
    unit: u8,
    lba: Seq<u8>,
    count: Seq<u8>,
    capacity: Option<u64>,
) -> Card {
    c.reg_written(0x03, unit, capacity).reg_written(0x04, lba[0], capacity).reg_written(
        0x05,
        lba[1],
        capacity,
    ).reg_written(0x06, lba[2], capacity).reg_written(0x07, lba[3], capacity).reg_written(
        0x08,
        count[0],
        capacity,
    ).reg_written(0x09, count[1], capacity).reg_written(0x0A, count[2], capacity).reg_written(
        0x0B,
        count[3],
        capacity,
    )
}

/// Replacing the four bytes of a longword gives the number they spell.
proof fn lemma_long(v: u32, b: Seq<u8>)
    ensures
        be::with_lane(
            be::with_lane(be::with_lane(be::with_lane(v, 0, b[0]), 1, b[1]), 2, b[2]),
            3,
            b[3],
        ) == long(b),
{
    let v1 = be::with_lane(v, 0, b[0]);
    let v2 = be::with_lane(v1, 1, b[1]);
    let v3 = be::with_lane(v2, 2, b[2]);
    assert(v1 / 0x100_0000 == b[0]);
    assert(v2 / 0x1_0000 == b[0] * 256 + b[1]);
    assert(v3 / 256 == (b[0] * 256 + b[1]) * 256 + b[2]);
}

/// Programming an idle card sets the three registers to what was written and
/// nothing else, and they read back byte for byte.
pub proof fn programmed_registers_read_back(
    c: Card,
    unit: u8,
    lba: Seq<u8>,
    count: Seq<u8>,
    capacity: Option<u64>,
    i: int,
)
    requires
        0 <= i < 4,
    ensures
        ({
            let p = programmed(c, unit, lba, count, capacity);
            &&& p == (Card { unit_select: unit, lba: long(lba) as u32, count: long(count) as u32, ..c
            })
            &&& 0 <= long(lba) <= u32::MAX
            &&& 0 <= long(count) <= u32::MAX
            &&& p.reg_read(0x03).0 == unit
            &&& p.reg_read((0x04 + i) as u32).0 == lba[i]
            &&& p.reg_read((0x08 + i) as u32).0 == count[i]
        }),
{
    lemma_long(c.lba, lba);
    lemma_long(c.count, count);
    lemma_digits(lba);
    lemma_digits(count);
}

proof fn lemma_digits(b: Seq<u8>)
    ensures
        forall|i: int| 0 <= i < 4 ==> #[trigger] be::byte_lane(long(b) as u32, i) == b[i],
{
    let v = long(b) as u32;
    assert(be::hi16(v) == b[0] * 256 + b[1]);
    assert(be::lo16(v) == b[2] * 256 + b[3]);
}

/// The enable and the acknowledgement: the one is held as written, and
/// neither the status nor any transfer is disturbed by them.
pub proof fn interrupt_registers_read_back(c: Card, value: u8, capacity: Option<u64>)
    ensures
        c.reg_written(0x1B, value, capacity) == (Card { int_enable: value, ..c }),
        c.reg_written(0x1B, value, capacity).reg_read(0x1B).0 == value,
        c.reg_read(0x1F).0 == c.int_status,
        c.reg_read(0x0F).0 == c.status,
{
}

/// A command that cannot be carried out answers with the error bit at once,
/// raises the completion interrupt and leaves the card idle: on a missing
/// unit, on no sectors, on sectors past the end, and on an unknown code.
pub proof fn impossible_commands_answer_at_once(c: Card, code: u8, capacity: Option<u64>)
    requires
        c.state == State::Idle,
        ({
            ||| capacity is None
            ||| (code == 1 || code == 2) && c.count == 0
            ||| (code == 1 || code == 2) && c.lba + c.count > capacity->0
            ||| code == 0 || code > 3
        }),
    ensures
        ({
            let after = c.reg_written(0x0F, code, capacity);
            &&& after.reg_read(0x0F).0 == 4
            &&& after.reg_read(0x1F).0 & 1 == 1
            &&& after.state == State::Idle
        }),
{
    laws::rejection_is_observable(c);
}

/// A flush is busy until its tick, and then done, with the completion
/// interrupt raised.
pub proof fn a_flush_is_busy_until_its_tick(c: Card, total: u64)
    requires
        c.state == State::Idle,
    ensures
        ({
            let waiting = c.reg_written(0x0F, 3, Some(total));
            let done = (Card { ticks_left: 0, ..waiting }).flushed();
            &&& waiting.state == State::FlushPending
            &&& waiting.reg_read(0x0F).0 == 1
            &&& waiting.int_status == c.int_status
            &&& done.reg_read(0x0F).0 == 0
            &&& done.reg_read(0x1F).0 & 1 == 1
            &&& done.state == State::Idle
        }),
{
    laws::rejection_is_observable(c);
}

/// The card after `n` bytes are read from `DATA`.
pub open spec fn taken(c: Card, n: nat) -> Card
    decreases n,
{
    if n == 0 {
        c
    } else {
        taken(c, (n - 1) as nat).reg_read(0x10).1
    }
}

proof fn lemma_taken(c: Card, n: nat)
    ensures
        taken(c, n) == laws::drained(c, n),
    decreases n,
{
    if n > 0 {
        lemma_taken(c, (n - 1) as nat);
    }
}

/// The card once its device has delivered a sector.
pub open spec fn delivered(c: Card, sector: Seq<u8>) -> Card {
    (Card { fifo: sector, ticks_left: 0, ..c }).fetched(true)
}

/// The card after its device has delivered `k` sectors and the driver has
/// read every byte of each.
pub open spec fn read_through(c: Card, data: Seq<Seq<u8>>, k: nat) -> Card
    decreases k,
{
    if k == 0 {
        c
    } else {
        taken(delivered(read_through(c, data, (k - 1) as nat), data[k - 1]), 512)
    }
}

proof fn lemma_read_through(c: Card, data: Seq<Seq<u8>>, k: nat)
    requires
        c.wf(),
        c.state == State::ReadPending,
        c.current_lba + c.sectors_left <= u32::MAX,
        data.len() == c.sectors_left,
        forall|i: int| 0 <= i < data.len() ==> (#[trigger] data[i]).len() == 512,
        k <= data.len(),
    ensures
        ({
            let s = read_through(c, data, k);
            &&& s.wf()
            &&& s.active_unit == c.active_unit
            &&& k < data.len() ==> s.state == State::ReadPending && s.current_lba == c.current_lba
                + k && s.sectors_left == c.sectors_left - k
            &&& k == data.len() ==> s.state == State::Idle && s.status == 0
        }),
    decreases k,
{
    if k > 0 {
        let m = (k - 1) as nat;
        lemma_read_through(c, data, m);
        let before = read_through(c, data, m);
        let ready = delivered(before, data[k - 1]);
        lemma_taken(ready, 512);
        lemma_drained_out(ready);
    }
}

proof fn lemma_drained_out(c: Card)
    requires
        c.wf(),
        c.state == State::ReadReady,
        c.pos == 0,
    ensures
        laws::drained(c, 512).wf(),
        laws::drained(c, 512).active_unit == c.active_unit,
        ({
            let end = laws::drained(c, 512);
            if c.sectors_left == 1 {
                end.state == State::Idle && end.status == 0
            } else {
                end.state == State::ReadPending && end.current_lba == c.current_lba.wrapping_add(1)
                    && end.sectors_left == c.sectors_left - 1
            }
        }),
{
    laws::a_sector_drains_in_order(c, 0);
    laws::lemma_drained(c, 511);
    laws::the_handshake_stays_consistent(laws::drained(c, 511), 0x10, 0, None, true);
    assert(laws::drained(c, 512) == laws::drained(c, 511).data_read().1);
}

/// A read of `count` sectors from `lba` on asks the chosen unit for sectors
/// `lba`, `lba + 1`, ... in turn, busy before each, and hands the driver
/// every byte of each through `DATA` in order. After the last one the card is
/// idle.
pub proof fn a_read_returns_its_sectors(
    c: Card,
    unit: u8,
    lba: Seq<u8>,
    count: Seq<u8>,
    total: u64,
    data: Seq<Seq<u8>>,
    k: nat,
    j: nat,
)
    requires
        c.wf(),
        c.state == State::Idle,
        unit < 8,
        long(count) > 0,
        long(lba) + long(count) <= total,
        long(lba) + long(count) <= u32::MAX,
        data.len() == long(count),
        forall|i: int| 0 <= i < data.len() ==> (#[trigger] data[i]).len() == 512,
        k < data.len(),
        j < 512,
    ensures
        ({
            let started = programmed(c, unit, lba, count, Some(total)).reg_written(
                0x0F,
                1,
                Some(total),
            );
            let asking = read_through(started, data, k);
            let ready = delivered(asking, data[k as int]);
            &&& asking.state == State::ReadPending
            &&& asking.reg_read(0x0F).0 == 1
            &&& asking.active_unit == unit
            &&& asking.current_lba == long(lba) + k
            &&& ready.reg_read(0x0F).0 == 2
            &&& ready.reg_read(0x1F).0 & 1 == 1
            &&& taken(ready, j).reg_read(0x10).0 == data[k as int][j as int]
            &&& read_through(started, data, data.len()).reg_read(0x0F).0 == 0
            &&& read_through(started, data, data.len()).state == State::Idle
        }),
{
    programmed_registers_read_back(c, unit, lba, count, Some(total), 0);
    let started = programmed(c, unit, lba, count, Some(total)).reg_written(0x0F, 1, Some(total));
    lemma_read_through(started, data, k);
    lemma_read_through(started, data, data.len());
    let asking = read_through(started, data, k);
    let ready = delivered(asking, data[k as int]);
    laws::rejection_is_observable(asking);
    laws::a_sector_drains_in_order(ready, j);
    lemma_taken(ready, j);
}

/// The card after bytes are written to `DATA`.
pub open spec fn given(c: Card, bytes: Seq<u8>) -> Card
    decreases bytes.len(),
{
    if bytes.len() == 0 {
        c
    } else {
        given(c, bytes.drop_last()).reg_written(0x10, bytes.last(), None)
    }
}

proof fn lemma_given(c: Card, bytes: Seq<u8>)
    ensures
        given(c, bytes) == laws::filled(c, bytes),
    decreases bytes.len(),
{
    if bytes.len() > 0 {
        lemma_given(c, bytes.drop_last());
    }
}

/// The card open for sector `k` of a write whose earlier sectors its device
/// has taken.
pub open spec fn written_through(c: Card, data: Seq<Seq<u8>>, k: nat) -> Card
    decreases k,
{
    if k == 0 {
        (Card { ticks_left: 0, ..c }).prepared()
    } else {
        (Card { ticks_left: 0, ..given(written_through(c, data, (k - 1) as nat), data[k - 1]) })
            .committed(true)
    }
}

proof fn lemma_filled_up(c: Card, bytes: Seq<u8>)
    requires
        c.wf(),
        c.state == State::WriteReady,
        c.pos == 0,
        bytes.len() == 512,
    ensures
        laws::filled(c, bytes).wf(),
        laws::filled(c, bytes).sectors_left == c.sectors_left,
        laws::filled(c, bytes).active_unit == c.active_unit,
{
    laws::lemma_filled(c, bytes.drop_last());
    laws::the_handshake_stays_consistent(
        laws::filled(c, bytes.drop_last()),
        0x10,
        bytes.last(),
        None,
        true,
    );
}

proof fn lemma_written_through(c: Card, data: Seq<Seq<u8>>, k: nat)
    requires
        c.wf(),
        c.state == State::WritePending,
        c.current_lba + c.sectors_left <= u32::MAX,
        data.len() == c.sectors_left,
        forall|i: int| 0 <= i < data.len() ==> (#[trigger] data[i]).len() == 512,
        k <= data.len(),
    ensures
        ({
            let s = written_through(c, data, k);
            &&& s.wf()
            &&& s.active_unit == c.active_unit
            &&& k < data.len() ==> s.state == State::WriteReady && s.pos == 0 && s.current_lba
                == c.current_lba + k && s.sectors_left == c.sectors_left - k
            &&& k == data.len() ==> s.state == State::Idle && s.status == 0
        }),
    decreases k,
{
    if k > 0 {
        let m = (k - 1) as nat;
        lemma_written_through(c, data, m);
        let open = written_through(c, data, m);
        lemma_given(open, data[k - 1]);
        lemma_filled_up(open, data[k - 1]);
        laws::a_full_sector_is_staged_for_commit(open, data[k - 1]);
        laws::the_handshake_stays_consistent(given(open, data[k - 1]), 0, 0, None, true);
    }
}

/// A write of `count` sectors from `lba` on takes every sector's bytes
/// through `DATA` in order and hands the chosen unit, as sector `lba + k`,
/// exactly the bytes of the `k`th, busy until it has. After the last one the
/// card is idle.
pub proof fn a_write_hands_over_its_sectors(
    c: Card,
    unit: u8,
    lba: Seq<u8>,
    count: Seq<u8>,
    total: u64,
    data: Seq<Seq<u8>>,
    k: nat,
)
    requires
        c.wf(),
        c.state == State::Idle,
        unit < 8,
        long(count) > 0,
        long(lba) + long(count) <= total,
        long(lba) + long(count) <= u32::MAX,
        data.len() == long(count),
        forall|i: int| 0 <= i < data.len() ==> (#[trigger] data[i]).len() == 512,
        k < data.len(),
    ensures
        ({
            let started = programmed(c, unit, lba, count, Some(total)).reg_written(
                0x0F,
                2,
                Some(total),
            );
            let open = written_through(started, data, k);
            let full = given(open, data[k as int]);
            &&& started.state == State::WritePending
            &&& started.reg_read(0x0F).0 == 1
            &&& open.reg_read(0x0F).0 == 2
            &&& full.state == State::WriteCommitting
            &&& full.reg_read(0x0F).0 == 1
            &&& full.active_unit == unit
            &&& full.current_lba == long(lba) + k
            &&& full.fifo == data[k as int]
            &&& written_through(started, data, k + 1).reg_read(0x1F).0 & 1 == 1
            &&& written_through(started, data, data.len()).reg_read(0x0F).0 == 0
            &&& written_through(started, data, data.len()).state == State::Idle
        }),
{
    programmed_registers_read_back(c, unit, lba, count, Some(total), 0);
    let started = programmed(c, unit, lba, count, Some(total)).reg_written(0x0F, 2, Some(total));
    lemma_written_through(started, data, k);
    lemma_written_through(started, data, data.len());
    let open = written_through(started, data, k);
    let full = given(open, data[k as int]);
    lemma_given(open, data[k as int]);
    lemma_filled_up(open, data[k as int]);
    laws::a_full_sector_is_staged_for_commit(open, data[k as int]);
    laws::rejection_is_observable(full);
    assert(written_through(started, data, k + 1) == (Card { ticks_left: 0, ..full }).committed(
        true,
    ));
}

} // verus!
