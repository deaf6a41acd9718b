use machine_core::autoconfig::{
    AUTOCONFIG_BASE, AUTOCONFIG_END, AutoConfig, BoardSpec, Configured, ERTF_DIAGVALID,
    ERT_ZORROII, ERT_ZORROIII, ec,
};
use machine_core::OPEN_BUS_BYTE;

fn a_board() -> BoardSpec {
    BoardSpec {
        board_type: ERT_ZORROII | 0x01,
        product: 11,
        flags: 0,
        manufacturer: 2167,
        serial: 0,
        init_diag_vec: 0,
        size_bytes: 0x0010_0000,
    }
}

#[test]
fn window_is_recognised_and_nothing_else_is() {
    assert!(AutoConfig::responds_to(AUTOCONFIG_BASE));
    assert!(AutoConfig::responds_to(AUTOCONFIG_BASE + 0x4C));
    assert!(!AutoConfig::responds_to(0x00DF_F000));
    assert!(!AutoConfig::responds_to(0x00E0_0000), "ext ROM is not us");
}

#[test]
fn boards_queue_in_offer_order() {
    let mut ac = AutoConfig::new();
    assert_eq!(ac.add_board(a_board()), Some(0));
    assert_eq!(ac.add_board(a_board()), Some(1));
}

#[test]
fn an_unconfigured_board_owns_no_address() {
    let mut ac = AutoConfig::new();
    ac.add_board(a_board());
    assert_eq!(ac.placement(0), None);
    assert_eq!(ac.board_at(0x0020_0000), None);
}

#[test]
fn empty_chain_reads_as_open_bus_everywhere_in_the_window() {
    let mut ac = AutoConfig::new();
    assert_eq!(ac.read(AUTOCONFIG_BASE), OPEN_BUS_BYTE);
    assert_eq!(ac.read(AUTOCONFIG_BASE + 0x3E), OPEN_BUS_BYTE);
    assert_eq!(ac.read(AUTOCONFIG_BASE + 0x48), OPEN_BUS_BYTE);
    assert_eq!(ac.read(AUTOCONFIG_END - 1), OPEN_BUS_BYTE);
}

#[test]
fn writes_to_an_empty_chain_do_nothing() {
    let mut ac = AutoConfig::new();
    ac.write(AUTOCONFIG_BASE + ec::BASEADDRESS, 0x20);
    ac.write(AUTOCONFIG_BASE + ec::SHUTUP, 0);
    assert_eq!(ac.board_at(0x0020_0000), None);
}

fn richly_specified_board() -> BoardSpec {
    BoardSpec {
        board_type: ERT_ZORROII | ERTF_DIAGVALID | 0x05,
        product: 0xAB,
        flags: 0x80,
        manufacturer: 0x1234,
        serial: 0xDEAD_BEEF,
        init_diag_vec: 0x0080,
        size_bytes: 0x0010_0000,
    }
}

fn expected_logical_rom() -> [u8; 16] {
    [
        0xC0 | 0x10 | 0x05,
        0xAB,
        0x80,
        0x00,
        0x12,
        0x34,
        0xDE,
        0xAD,
        0xBE,
        0xEF,
        0x00,
        0x80,
        0x00,
        0x00,
        0x00,
        0x00,
    ]
}

#[test]
fn nybble_sequence_matches_an_independently_built_expected_rom() {
    let mut ac = AutoConfig::new();
    ac.add_board(richly_specified_board());
    let expected = expected_logical_rom();

    for (byte_idx, &logical) in expected.iter().enumerate() {
        let hi_addr = AUTOCONFIG_BASE + (4 * byte_idx as u32);
        let lo_addr = hi_addr + 2;
        let physical = if byte_idx == 0 { logical } else { !logical };
        let expected_hi = (physical >> 4) << 4;
        let expected_lo = (physical & 0x0F) << 4;
        assert_eq!(ac.read(hi_addr), expected_hi, "byte {byte_idx} high nybble");
        assert_eq!(ac.read(lo_addr), expected_lo, "byte {byte_idx} low nybble");
    }

    assert_eq!(ac.read(AUTOCONFIG_BASE) & 0xF0, 0xD0);

    assert_eq!(ac.read(AUTOCONFIG_BASE + 1), OPEN_BUS_BYTE);
    assert_eq!(ac.read(AUTOCONFIG_BASE + 0x3F), OPEN_BUS_BYTE);
    assert_eq!(ac.read(AUTOCONFIG_BASE + 0x40), OPEN_BUS_BYTE);
    assert_eq!(ac.read(AUTOCONFIG_BASE + 0x1000), OPEN_BUS_BYTE);
}

fn zorro_ii_ram(size_bytes: u32) -> BoardSpec {
    BoardSpec {
        board_type: ERT_ZORROII | 0x05,
        product: 3,
        flags: 0,
        manufacturer: 0x1448,
        serial: 0,
        init_diag_vec: 0,
        size_bytes,
    }
}

#[test]
fn zorro_ii_base_write_places_the_board_and_board_at_resolves_it() {
    let mut ac = AutoConfig::new();
    ac.add_board(zorro_ii_ram(0x0010_0000));

    ac.write(AUTOCONFIG_BASE + ec::BASEADDRESS, 0x20);

    assert_eq!(
        ac.placement(0),
        Some(Configured {
            base: 0x0020_0000,
            size_bytes: 0x0010_0000,
        })
    );
    assert_eq!(ac.board_at(0x0020_0000), Some(0), "start of the window");
    assert_eq!(
        ac.board_at(0x0020_0000 + 0x0010_0000 - 1),
        Some(0),
        "last byte of the window"
    );
    assert_eq!(
        ac.board_at(0x0020_0000 + 0x0010_0000),
        None,
        "one past the end"
    );
    assert_eq!(ac.board_at(0x0010_0000), None, "before the base");
}

#[test]
fn base_address_lo_alone_does_not_configure() {
    let mut ac = AutoConfig::new();
    ac.add_board(zorro_ii_ram(0x0010_0000));

    ac.write(AUTOCONFIG_BASE + ec::BASEADDRESS_LO, 0x00);
    assert_eq!(ac.placement(0), None, "not yet configured");

    ac.write(AUTOCONFIG_BASE + ec::BASEADDRESS, 0x20);
    assert_eq!(ac.placement(0).map(|p| p.base), Some(0x0020_0000));
}

fn zorro_iii_ram(size_bytes: u32) -> BoardSpec {
    BoardSpec {
        board_type: ERT_ZORROIII,
        product: 4,
        flags: 0,
        manufacturer: 0x1448,
        serial: 0,
        init_diag_vec: 0,
        size_bytes,
    }
}

#[test]
fn zorro_iii_base_write_via_44_places_the_board() {
    let mut ac = AutoConfig::new();
    ac.add_board(zorro_iii_ram(0x0100_0000));

    ac.write(AUTOCONFIG_BASE + ec::Z3_BASEADDRESS, 0x40);
    ac.write(AUTOCONFIG_BASE + ec::Z3_BASEADDRESS + 1, 0x00);

    assert_eq!(
        ac.placement(0),
        Some(Configured {
            base: 0x4000_0000,
            size_bytes: 0x0100_0000,
        })
    );
    assert_eq!(ac.board_at(0x4000_0000), Some(0));
    assert_eq!(ac.board_at(0x40FF_FFFF), Some(0));
    assert_eq!(ac.board_at(0x4100_0000), None);
}

#[test]
fn shutup_retires_the_board_with_no_placement() {
    let mut ac = AutoConfig::new();
    ac.add_board(zorro_ii_ram(0x0010_0000));

    ac.write(AUTOCONFIG_BASE + ec::SHUTUP, 0);

    assert_eq!(ac.placement(0), None);
    assert_eq!(ac.board_at(0x0020_0000), None);
    assert_eq!(ac.read(AUTOCONFIG_BASE), OPEN_BUS_BYTE);
}

fn read_logical_byte(ac: &mut AutoConfig, byte_idx: u32) -> u8 {
    let hi = ac.read(AUTOCONFIG_BASE + 4 * byte_idx) >> 4;
    let lo = ac.read(AUTOCONFIG_BASE + 4 * byte_idx + 2) >> 4;
    let physical = (hi << 4) | lo;
    if byte_idx == 0 {
        physical
    } else {
        !physical
    }
}

#[test]
fn second_board_appears_only_after_the_first_is_retired() {
    let mut ac = AutoConfig::new();
    let vram = BoardSpec {
        board_type: ERT_ZORROII | 0x05,
        product: 11,
        flags: 0,
        manufacturer: 2167,
        serial: 0,
        init_diag_vec: 0,
        size_bytes: 0x0010_0000,
    };
    let regs = BoardSpec {
        board_type: ERT_ZORROII | 0x01,
        product: 12,
        flags: 0,
        manufacturer: 2167,
        serial: 0,
        init_diag_vec: 0,
        size_bytes: 0x0001_0000,
    };
    ac.add_board(vram);
    ac.add_board(regs);

    assert_eq!(read_logical_byte(&mut ac, 1), 11);

    ac.write(AUTOCONFIG_BASE + ec::BASEADDRESS, 0x20);
    assert_eq!(ac.placement(0).map(|p| p.base), Some(0x0020_0000));
    assert_eq!(ac.placement(1), None, "board 1 not configured yet");

    assert_eq!(read_logical_byte(&mut ac, 1), 12);

    ac.write(AUTOCONFIG_BASE + ec::BASEADDRESS, 0xE9);
    assert_eq!(ac.placement(1).map(|p| p.base), Some(0x00E9_0000));

    assert_eq!(ac.board_at(0x0020_0000), Some(0));
    assert_eq!(ac.board_at(0x00E9_0000), Some(1));

    assert_eq!(ac.read(AUTOCONFIG_BASE), OPEN_BUS_BYTE);
}

#[test]
fn non_protocol_addresses_in_the_window_behave_sanely() {
    let mut ac = AutoConfig::new();
    ac.add_board(zorro_ii_ram(0x0010_0000));

    assert_eq!(ac.read(AUTOCONFIG_BASE + 0x1234), OPEN_BUS_BYTE);
    ac.write(AUTOCONFIG_BASE + 0x1234, 0xFF);
    assert_eq!(ac.placement(0), None);

    assert_eq!(ac.read(AUTOCONFIG_BASE + 0x0C), 0xF0);
    assert_eq!(ac.read(AUTOCONFIG_BASE + 0x0E), 0xF0);
}
