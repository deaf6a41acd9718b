//! The smoke checks a board runs on its bus before anything else.

use crate::board::line;
use crate::board::line::Line;
use crate::bus;
use crate::bus::{MachineBus, Memory, CHIP_RAM_SIZE, ROM_BASE, ROM_WINDOW_SIZE};
use vstd::prelude::*;

verus! {

/// Length of the test ROM: a quarter of the window, so the window shows the
/// image four times.
pub const TEST_ROM_LEN: usize = 131072;

/// The test ROM's contents.
pub open spec fn test_rom() -> Seq<u8> {
    Seq::new(TEST_ROM_LEN as nat, |i: int| 0u8).update(0, 0x11).update(4, 0x22)
}

/// Build the test ROM.
pub fn build_test_rom() -> (rom: Vec<u8>)
    ensures
        rom@ == test_rom(),
{
    let mut rom: Vec<u8> = vec![0u8; TEST_ROM_LEN];
    rom[0] = 0x11;
    rom[4] = 0x22;
    assert(rom@ =~= test_rom());
    rom
}

/// The line printed for a check, before any clipping.
pub open spec fn check_bytes(name: Seq<char>, passed: bool) -> Seq<u8> {
    if passed {
        vstd::utf8::encode_utf8("[PASS] "@) + vstd::utf8::encode_utf8(name)
    } else {
        vstd::utf8::encode_utf8("[FAIL] "@) + vstd::utf8::encode_utf8(name)
    }
}

/// Format a `PASS`/`FAIL` line.
pub fn format_check(name: &str, passed: bool) -> (line: Line)
    ensures
        line@ == line::clipped(check_bytes(name@, passed)),
{
    let mut line = Line::new();
    if passed {
        proof {
            reveal_strlit("[PASS] ");
            assert(vstd::utf8::is_ascii_chars("[PASS] "@));
            vstd::utf8::is_ascii_chars_encode_utf8("[PASS] "@);
        }
        line.write_str("[PASS] ");
    } else {
        proof {
            reveal_strlit("[FAIL] ");
            assert(vstd::utf8::is_ascii_chars("[FAIL] "@));
            vstd::utf8::is_ascii_chars_encode_utf8("[FAIL] "@);
        }
        line.write_str("[FAIL] ");
    }
    line.write_str(name);
    line
}

/// Check results so far: a line each, and whether all have passed.
pub struct CheckReport {
    pub lines: Vec<Line>,
    pub all_passed: bool,
}

impl CheckReport {
    /// The lines' bytes.
    pub open spec fn texts(self) -> Seq<Seq<u8>> {
        self.lines@.map_values(|line: Line| line@)
    }

    pub fn new() -> (report: Self)
        ensures
            report.texts() == Seq::<Seq<u8>>::empty(),
            report.all_passed,
    {
        let report = CheckReport { lines: Vec::new(), all_passed: true };
        assert(report.texts() =~= Seq::empty());
        report
    }

    /// Record one check.
    pub fn report_check(&mut self, name: &str, passed: bool)
        ensures
            final(self).texts() == old(self).texts().push(
                line::clipped(check_bytes(name@, passed)),
            ),
            final(self).all_passed == (old(self).all_passed && passed),
    {
        self.lines.push(format_check(name, passed));
        assert(self.texts() =~= old(self).texts().push(line::clipped(check_bytes(name@, passed))));
        if !passed {
            self.all_passed = false;
        }
    }
}

/// Whether a ROM shows what the test ROM has at its start and again one
/// image length further on.
pub open spec fn rom_checks_pass(m: Memory) -> bool {
    &&& m.byte(ROM_BASE) == 0x11
    &&& m.byte((ROM_BASE + 4) as u32) == 0x22
    &&& m.byte((ROM_BASE + m.rom.len()) as u32) == 0x11
}

/// Run the bus checks: an open-bus read, a chip RAM round trip, the ROM and
/// its mirroring. The first two pass on every bus.
pub fn run_checks(bus: &mut MachineBus) -> (report: CheckReport)
    requires
        old(bus)@.rom.len() <= ROM_WINDOW_SIZE,
    ensures
        final(bus)@ == old(bus)@.with_long(0x0010_0000, 0xDEAD_BEEF),
        final(final(bus).chip_ram)@ == final(old(bus).chip_ram)@,
        report.all_passed == rom_checks_pass(old(bus)@),
        ({
            let m = old(bus)@;
            let rom_ok = m.byte(ROM_BASE) == 0x11 && m.byte((ROM_BASE + 4) as u32) == 0x22;
            let mirror_ok = m.byte((ROM_BASE + m.rom.len()) as u32) == 0x11;
            report.texts() == seq![
                line::clipped(check_bytes("open-bus read at $DE1000 == $FFFFFFFF"@, true)),
                line::clipped(check_bytes("chip RAM write/read roundtrip"@, true)),
                line::clipped(check_bytes("ROM read"@, rom_ok)),
                line::clipped(check_bytes("ROM mirroring"@, mirror_ok)),
            ]
        }),
{
    let mut report = CheckReport::new();
    let ghost m = bus@;
    assert(bus.chip_ram@.len() == CHIP_RAM_SIZE);

    let open_bus_ok = bus.read_long(0x00DE_1000) == 0xFFFF_FFFF;
    proof {
        bus::open_bus_reads_all_ones(m, 0x00DE_1000);
    }
    report.report_check("open-bus read at $DE1000 == $FFFFFFFF", open_bus_ok);

    bus.write_long(0x0010_0000, 0xDEAD_BEEF);
    let chip_ram_ok = bus.read_long(0x0010_0000) == 0xDEAD_BEEF;
    proof {
        bus::chip_ram_wider_accesses_read_back(m, 0x0010_0000, 0, 0xDEAD_BEEF);
    }
    report.report_check("chip RAM write/read roundtrip", chip_ram_ok);

    let rom_base_ok = bus.read_byte(ROM_BASE) == 0x11;
    let rom_offset_ok = bus.read_byte(ROM_BASE + 4) == 0x22;
    report.report_check("ROM read", rom_base_ok && rom_offset_ok);

    let mirror: u32 = ROM_BASE + bus.rom.len() as u32;
    let rom_mirror_ok = bus.read_byte(mirror) == 0x11;
    report.report_check("ROM mirroring", rom_mirror_ok);
    report
}

/// On the test ROM every check passes, whatever chip RAM held before.
pub proof fn checks_pass_on_the_test_rom(ram: Seq<u8>)
    ensures
        rom_checks_pass(Memory { ram, rom: test_rom() }),
{
    let m = Memory { ram, rom: test_rom() };
    bus::undersized_rom_mirrors(m, ROM_BASE);
}

/// One line per check, and whether all have passed, for a board that prints
/// as it goes.
pub struct Checks {
    pub all_passed: bool,
}

/// The line printed for a check.
pub open spec fn verdict_line(name: Seq<char>, passed: bool) -> Seq<char> {
    if passed {
        "PASS: "@ + name
    } else {
        "FAIL: "@ + name
    }
}

impl Checks {
    /// Record a check, and return the line to print for it.
    pub fn check(&mut self, name: &str, passed: bool) -> (line: String)
        ensures
            line@ == verdict_line(name@, passed),
            final(self).all_passed == (old(self).all_passed && passed),
    {
        let mut line = if passed {
            "PASS: ".to_owned()
        } else {
            self.all_passed = false;
            "FAIL: ".to_owned()
        };
        line.append(name);
        line
    }
}

/// The smoke payload's checks, in order: open bus and its discarded write,
/// chip RAM, and a four-byte ROM with its mirroring and discarded write.
/// Only the ROM checks depend on the bus; the others pass on every one.
pub fn smoke_checks(bus: &mut MachineBus) -> (result: (Vec<String>, bool))
    ensures
        final(bus)@ == old(bus)@.with_long(0x0010_0000, 0xCAFE_F00D),
        final(final(bus).chip_ram)@ == final(old(bus).chip_ram)@,
        ({
            let m = old(bus)@;
            let read_ok = m.long(ROM_BASE) == 0x1122_3344;
            let mirror_ok = m.long((ROM_BASE + 4) as u32) == 0x1122_3344;
            let write_ok = m.byte(ROM_BASE) == 0x11;
            &&& result.1 == (read_ok && mirror_ok && write_ok)
            &&& result.0@.len() == 6
            &&& result.0@[0]@ == verdict_line("open bus $DE1000 reads $FFFFFFFF"@, true)
            &&& result.0@[1]@ == verdict_line("open bus write to $DE1000 is discarded"@, true)
            &&& result.0@[2]@ == verdict_line("chip RAM write/read roundtrip at $100000"@, true)
            &&& result.0@[3]@ == verdict_line("ROM read at $F80000 matches test ROM"@, read_ok)
            &&& result.0@[4]@ == verdict_line("ROM mirrors across the window"@, mirror_ok)
            &&& result.0@[5]@ == verdict_line("ROM write is discarded"@, write_ok)
        }),
{
    let mut lines: Vec<String> = Vec::new();
    let mut checks = Checks { all_passed: true };
    let ghost m = bus@;
    assert(bus.chip_ram@.len() == CHIP_RAM_SIZE);

    let open_bus: u32 = bus.read_long(0x00DE_1000);
    proof {
        bus::open_bus_reads_all_ones(m, 0x00DE_1000);
    }
    lines.push(checks.check("open bus $DE1000 reads $FFFFFFFF", open_bus == 0xFFFF_FFFF));

    bus.write_long(0x00DE_1000, 0xDEAD_BEEF);
    assert(bus@ == m);
    let after_write: u32 = bus.read_long(0x00DE_1000);
    lines.push(checks.check("open bus write to $DE1000 is discarded", after_write == 0xFFFF_FFFF));

    bus.write_long(0x0010_0000, 0xCAFE_F00D);
    let chip_ram: u32 = bus.read_long(0x0010_0000);
    proof {
        bus::chip_ram_wider_accesses_read_back(m, 0x0010_0000, 0, 0xCAFE_F00D);
    }
    lines.push(checks.check("chip RAM write/read roundtrip at $100000", chip_ram == 0xCAFE_F00D));

    let rom: u32 = bus.read_long(ROM_BASE);
    lines.push(checks.check("ROM read at $F80000 matches test ROM", rom == 0x1122_3344));

    let rom_mirror: u32 = bus.read_long(ROM_BASE + 4);
    lines.push(checks.check("ROM mirrors across the window", rom_mirror == 0x1122_3344));

    bus.write_byte(ROM_BASE, 0x99);
    let rom_after: u8 = bus.read_byte(ROM_BASE);
    lines.push(checks.check("ROM write is discarded", rom_after == 0x11));
    (lines, checks.all_passed)
}

/// A four-byte ROM repeats every four bytes.
proof fn lemma_four_byte_rom(m: Memory, k: int)
    requires
        m.rom.len() == 4,
        0 <= k < 8,
    ensures
        m.byte((ROM_BASE + k) as u32) == m.rom[k % 4],
{
    assert((ROM_BASE + k) as u32 - ROM_BASE == k);
    assert(m.rom.len() as int == 4);
}

/// With the four-byte test ROM in place every smoke check passes.
pub proof fn smoke_checks_pass(ram: Seq<u8>)
    ensures
        ({
            let m = Memory { ram, rom: seq![0x11u8, 0x22, 0x33, 0x44] };
            &&& m.long(ROM_BASE) == 0x1122_3344
            &&& m.long((ROM_BASE + 4) as u32) == 0x1122_3344
            &&& m.byte(ROM_BASE) == 0x11
        }),
{
    let m = Memory { ram, rom: seq![0x11u8, 0x22, 0x33, 0x44] };
    assert(m.rom.len() == 4);
    lemma_four_byte_rom(m, 0);
    lemma_four_byte_rom(m, 1);
    lemma_four_byte_rom(m, 2);
    lemma_four_byte_rom(m, 3);
    lemma_four_byte_rom(m, 4);
    lemma_four_byte_rom(m, 5);
    lemma_four_byte_rom(m, 6);
    lemma_four_byte_rom(m, 7);
}

} // verus!
