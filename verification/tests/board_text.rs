use machine_core::board::checks::{
    CheckReport, Checks, TEST_ROM_LEN, build_test_rom, format_check, run_checks, smoke_checks,
};
use machine_core::board::fast_ram::{FastRam, PREFERRED_MB, next_request, pages_for};
use machine_core::board::heap::{HEAP_SIZE, place};
use machine_core::board::line::{CAPACITY, Line};
use machine_core::board::serial::{GuestLine, serial_bytes};
use machine_core::board::text::{push_address, push_decimal, push_hex, push_register};
use machine_core::{CHIP_RAM_SIZE, MachineBus};

fn chip_ram() -> Box<[u8; CHIP_RAM_SIZE]> {
    match vec![0u8; CHIP_RAM_SIZE].into_boxed_slice().try_into() {
        Ok(ram) => ram,
        Err(_) => unreachable!("the length is right"),
    }
}

#[test]
fn numbers_as_text() {
    let mut s = String::from("n=");
    push_decimal(&mut s, 0);
    push_decimal(&mut s, 1234567890);
    assert_eq!(s, "n=01234567890");
    let mut max = String::new();
    push_decimal(&mut max, u64::MAX);
    assert_eq!(max, "18446744073709551615");
    let mut hex = String::new();
    push_hex(&mut hex, 0xABCDEF, 4);
    assert_eq!(hex, "cdef");
    let mut registers = String::new();
    push_address(&mut registers, 0x00F8_00D2);
    push_register(&mut registers, 0x4028);
    assert_eq!(registers, "0x00f800d20x4028");
}

#[test]
fn a_line_holds_what_was_written() {
    let mut line = Line::new();
    assert_eq!(line.as_str(), "");
    line.write_str("chip ");
    line.write_str("RAM: ");
    line.write_str("\u{e9}");
    assert_eq!(line.as_str(), "chip RAM: \u{e9}");
}

#[test]
fn a_line_is_clipped_at_its_capacity() {
    let mut line = Line::new();
    line.write_str(&"x".repeat(CAPACITY - 1));
    line.write_str("yz");
    line.write_str("more");
    assert_eq!(line.as_str().len(), CAPACITY);
    assert!(line.as_str().ends_with("xy"));
}

#[test]
fn a_cut_inside_a_character_reads_as_empty() {
    let mut line = Line::new();
    line.write_str(&"x".repeat(CAPACITY - 1));
    line.write_str("\u{e9}");
    assert_eq!(line.as_str(), "");
}

#[test]
fn check_lines() {
    assert_eq!(format_check("ROM read", true).as_str(), "[PASS] ROM read");
    assert_eq!(format_check("ROM read", false).as_str(), "[FAIL] ROM read");
    let mut report = CheckReport::new();
    report.report_check("one", true);
    assert!(report.all_passed);
    report.report_check("two", false);
    report.report_check("three", true);
    assert!(!report.all_passed);
    assert_eq!(report.lines[1].as_str(), "[FAIL] two");
}

#[test]
fn all_checks_pass_on_the_test_rom() {
    let mut ram = chip_ram();
    let rom = build_test_rom();
    assert_eq!(rom.len(), TEST_ROM_LEN);
    let mut bus = MachineBus::new(&mut ram, &rom);
    let report = run_checks(&mut bus);
    assert!(report.all_passed);
    let lines: Vec<&str> = report.lines.iter().map(|l| l.as_str()).collect();
    assert_eq!(
        lines,
        vec![
            "[PASS] open-bus read at $DE1000 == $FFFFFFFF",
            "[PASS] chip RAM write/read roundtrip",
            "[PASS] ROM read",
            "[PASS] ROM mirroring",
        ]
    );
    assert_eq!(bus.read_long(0x0010_0000), 0xDEAD_BEEF);
}

#[test]
fn a_wrong_rom_fails_its_checks_only() {
    let mut ram = chip_ram();
    let rom = vec![0x11u8, 0, 0, 0, 0x33, 0, 0, 0];
    let mut bus = MachineBus::new(&mut ram, &rom);
    let report = run_checks(&mut bus);
    assert!(!report.all_passed);
    assert_eq!(report.lines[2].as_str(), "[FAIL] ROM read");
    assert_eq!(report.lines[3].as_str(), "[PASS] ROM mirroring");
}

#[test]
fn smoke_checks_pass_on_their_rom() {
    let mut ram = chip_ram();
    let rom = [0x11u8, 0x22, 0x33, 0x44];
    let mut bus = MachineBus::new(&mut ram, &rom);
    let (lines, all_passed) = smoke_checks(&mut bus);
    assert!(all_passed);
    assert_eq!(lines.len(), 6);
    assert_eq!(lines[0], "PASS: open bus $DE1000 reads $FFFFFFFF");
    assert_eq!(lines[5], "PASS: ROM write is discarded");
}

#[test]
fn smoke_checks_report_a_wrong_rom() {
    let mut ram = chip_ram();
    let rom = [0x11u8, 0x22, 0x33, 0x45];
    let mut bus = MachineBus::new(&mut ram, &rom);
    let (lines, all_passed) = smoke_checks(&mut bus);
    assert!(!all_passed);
    assert_eq!(lines[3], "FAIL: ROM read at $F80000 matches test ROM");
    assert_eq!(lines[4], "FAIL: ROM mirrors across the window");
    assert_eq!(lines[5], "PASS: ROM write is discarded");
}

#[test]
fn one_failure_is_remembered() {
    let mut checks = Checks { all_passed: true };
    assert_eq!(checks.check("a", true), "PASS: a");
    assert!(checks.all_passed);
    assert_eq!(checks.check("b", false), "FAIL: b");
    assert_eq!(checks.check("c", true), "PASS: c");
    assert!(!checks.all_passed);
}

#[test]
fn refused_requests_halve_to_the_floor() {
    let mut asked = vec![PREFERRED_MB];
    while let Some(next) = next_request(asked[asked.len() - 1]) {
        asked.push(next);
    }
    assert_eq!(asked, vec![256, 128, 64, 32, 16, 8, 4, 2, 1]);
    assert_eq!(next_request(0), None);
}

#[test]
fn pages_round_up() {
    assert_eq!(pages_for(256, 4096), 65536);
    assert_eq!(pages_for(1, 3), 349526);
    assert_eq!(pages_for(0, 4096), 0);
    assert_eq!(pages_for(1, 2 * 1048576), 1);
}

#[test]
fn fast_ram_is_described() {
    let whole = FastRam::granted(Box::leak(vec![0u8; 4].into_boxed_slice()), 256);
    assert_eq!(whole.describe(), "fast RAM: 256 MB allocated from boot services");
    assert_eq!(whole.mem.map(|m| m.len()), Some(4));
    let part = FastRam::granted(Box::leak(vec![0u8; 4].into_boxed_slice()), 64);
    assert_eq!(
        part.describe(),
        "fast RAM: 64 MB allocated from boot services (wanted 256 MB; halved down until an allocation succeeded)"
    );
    assert_eq!(
        FastRam::refused().describe(),
        "fast RAM: none -- boot services could not satisfy even a 1 MB request -- continuing with chip RAM only"
    );
}

#[test]
fn allocations_are_aligned_and_bounded() {
    assert_eq!(place(0x1000, 0, 10, 8), Some((0, 10)));
    assert_eq!(place(0x1000, 10, 16, 16), Some((16, 32)));
    assert_eq!(place(0x1001, 0, 4, 4), Some((3, 7)));
    assert_eq!(place(0x1000, 0, HEAP_SIZE, 1), Some((0, HEAP_SIZE)));
    assert_eq!(place(0x1000, 1, HEAP_SIZE, 1), None);
}

#[test]
fn newlines_go_out_with_a_return() {
    assert_eq!(serial_bytes("a\nb\n\n"), b"a\r\nb\r\n\r\n");
    assert_eq!(serial_bytes(""), b"");
    assert_eq!(serial_bytes("\u{e9}"), vec![0xC3, 0xA9]);
}

#[test]
fn guest_output_is_gathered_into_lines() {
    let mut line = GuestLine::new();
    for byte in b"hi\r" {
        assert!(line.push(*byte).is_none());
    }
    assert_eq!(line.push(b'\n').as_deref(), Some("GUEST | hi"));
    assert!(line.push(b'\n').is_none(), "an empty line is not printed");
    line.push(0xE9);
    assert_eq!(line.flush().as_deref(), Some("GUEST | \u{e9}"));
    assert!(line.flush().is_none());
}
