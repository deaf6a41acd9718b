use machine_core::cia::{
    CIAA_DSKCHANGE, CIAA_DSKPROT, CIAA_DSKRDY, CIAA_DSKTRACK0, CIAB_DSKDIREC, CIAB_DSKMOTOR,
    CIAB_DSKSEL0, CIAB_DSKSTEP, CRA_INMODE, CRA_LOAD, CRA_RUNMODE, CRA_SPMODE, CRA_START,
    CRB_ALARM, CRB_INMODE_SHIFT, CRB_RUNMODE, CRB_START, Cia, CiaId, FLOPPY_PRA_MASK,
    FloppyDrive, FloppyPresence, KEYBOARD_HANDSHAKE_TICKS, encode_keyboard_byte, icr, reg,
    shift_id_bit,
};

fn advance(cia: &mut Cia, ticks: u32) -> bool {
    cia.tick(ticks, 1)
}

#[test]
fn cia_a_asserts_overlay_after_reset() {
    let cia = Cia::new(CiaId::A);
    assert!(cia.ovl_asserted(), "OVL is high out of reset");
}

#[test]
fn cia_b_never_asserts_overlay() {
    let cia = Cia::new(CiaId::B);
    assert!(!cia.ovl_asserted());
}

#[test]
fn clearing_pra_bit0_releases_overlay() {
    let mut cia = Cia::new(CiaId::A);
    cia.write(reg::PRA, 0x00);
    assert!(!cia.ovl_asserted());
}

#[test]
fn reading_icr_clears_it() {
    let mut cia = Cia::new(CiaId::A);
    cia.icr_mask = 1 << icr::TA;
    cia.raise(icr::TA);
    assert!(cia.irq_pending());
    let value = cia.read(reg::ICR);
    assert_eq!(value & (1 << icr::TA), 1 << icr::TA);
    assert_eq!(value & (1 << icr::IR), 1 << icr::IR);
    assert!(!cia.irq_pending(), "ICR read acknowledges");
}

#[test]
fn keyboard_queue_roundtrips() {
    let mut cia = Cia::new(CiaId::A);
    cia.queue_keycode(0x40);
    cia.queue_keycode(0xC0);
    assert_eq!(cia.next_keycode(), Some(0x40));
    assert_eq!(cia.next_keycode(), Some(0xC0));
    assert_eq!(cia.next_keycode(), None);
}

fn start_timer_a(cia: &mut Cia, latch: u16, oneshot: bool) {
    cia.write(reg::TALO, latch as u8);
    cia.write(reg::TAHI, (latch >> 8) as u8);
    let mut cra = CRA_START;
    if oneshot {
        cra |= CRA_RUNMODE;
    }
    cia.write(reg::CRA, cra);
}

#[test]
fn timer_a_underflows_after_latch_plus_one_ticks() {
    let mut cia = Cia::new(CiaId::A);
    cia.icr_mask = 1 << icr::TA;
    start_timer_a(&mut cia, 3, false);

    for i in 0..3 {
        assert!(!advance(&mut cia, 1), "no underflow yet at tick {i}");
    }
    assert!(advance(&mut cia, 1), "underflow on the 4th tick");
    assert_eq!(cia.timer_a, 3, "reloaded from the latch");
}

#[test]
fn tahi_write_in_one_shot_mode_starts_timer_a() {
    let mut cia = Cia::new(CiaId::A);
    cia.icr_mask = 1 << icr::TA;
    cia.write(reg::CRA, CRA_RUNMODE);
    cia.write(reg::TALO, 3);
    assert_eq!(cia.cra & CRA_START, 0, "TALO alone must not start it");
    cia.write(reg::TAHI, 0);
    assert_ne!(
        cia.cra & CRA_START,
        0,
        "TAHI write auto-starts a one-shot timer"
    );
    for i in 0..3 {
        assert!(!advance(&mut cia, 1), "no underflow yet at tick {i}");
    }
    assert!(advance(&mut cia, 1), "one-shot fires after latch+1 ticks");
    assert_eq!(cia.cra & CRA_START, 0, "and stops itself again");
}

#[test]
fn tahi_write_in_continuous_mode_does_not_start_timer_a() {
    let mut cia = Cia::new(CiaId::A);
    cia.icr_mask = 1 << icr::TA;
    cia.write(reg::TALO, 3);
    cia.write(reg::TAHI, 0);
    assert_eq!(cia.cra & CRA_START, 0, "continuous mode never auto-starts");
    assert!(!advance(&mut cia, 8), "and the timer is not counting");
}

#[test]
fn tbhi_write_in_one_shot_mode_starts_timer_b() {
    let mut cia = Cia::new(CiaId::B);
    cia.icr_mask = 1 << icr::TB;
    cia.write(reg::CRB, CRB_RUNMODE);
    cia.write(reg::TBLO, 3);
    assert_eq!(cia.crb & CRB_START, 0, "TBLO alone must not start it");
    cia.write(reg::TBHI, 0);
    assert_ne!(
        cia.crb & CRB_START,
        0,
        "TBHI write auto-starts a one-shot timer"
    );
    for i in 0..3 {
        assert!(!advance(&mut cia, 1), "no underflow yet at tick {i}");
    }
    assert!(advance(&mut cia, 1), "one-shot fires after latch+1 ticks");
    assert_eq!(cia.crb & CRB_START, 0, "and stops itself again");
}

#[test]
fn timer_a_continuous_mode_reloads_and_keeps_running() {
    let mut cia = Cia::new(CiaId::A);
    cia.icr_mask = 1 << icr::TA;
    start_timer_a(&mut cia, 1, false);

    advance(&mut cia, 2);
    assert!(cia.cra & CRA_START != 0, "continuous mode stays running");
    let _ = cia.read(reg::ICR);
    advance(&mut cia, 2);
    assert!(cia.irq_pending(), "a second underflow must have happened");
}

#[test]
fn timer_a_one_shot_clears_start_on_underflow() {
    let mut cia = Cia::new(CiaId::A);
    cia.icr_mask = 1 << icr::TA;
    start_timer_a(&mut cia, 1, true);

    assert!(advance(&mut cia, 2));
    assert_eq!(cia.cra & CRA_START, 0, "one-shot clears START on underflow");
    let _ = cia.read(reg::ICR);
    assert!(
        !advance(&mut cia, 10),
        "a stopped one-shot timer must not keep firing"
    );
}

#[test]
fn load_strobe_forces_reload_without_starting() {
    let mut cia = Cia::new(CiaId::A);
    cia.write(reg::TALO, 0x34);
    cia.write(reg::TAHI, 0x12);
    cia.timer_a = 0;
    cia.write(reg::CRA, CRA_LOAD);

    assert_eq!(cia.timer_a, 0x1234);
    assert_eq!(cia.cra & CRA_START, 0, "LOAD does not also start it");
    assert_eq!(cia.read(reg::CRA) & CRA_LOAD, 0, "LOAD never reads back");
}

#[test]
fn writing_tahi_reloads_when_stopped_but_not_when_running() {
    let mut cia = Cia::new(CiaId::A);
    cia.write(reg::TALO, 0x00);
    cia.write(reg::TAHI, 0x10);
    assert_eq!(cia.timer_a, 0x1000);

    cia.write(reg::CRA, CRA_START);
    cia.timer_a = 5;
    cia.write(reg::TAHI, 0x20);
    assert_eq!(cia.timer_a, 5);
    assert_eq!(cia.latch_a, 0x2000);
}

#[test]
fn timer_a_inmode_cnt_never_counts() {
    let mut cia = Cia::new(CiaId::A);
    cia.write(reg::TALO, 5);
    cia.write(reg::TAHI, 0);
    cia.write(reg::CRA, CRA_START | CRA_INMODE);
    advance(&mut cia, 100);
    assert_eq!(cia.timer_a, 5);
}

#[test]
fn timer_b_e_clock_mode_counts_independently_of_timer_a() {
    let mut cia = Cia::new(CiaId::A);
    cia.icr_mask = 1 << icr::TB;
    cia.write(reg::TBLO, 2);
    cia.write(reg::TBHI, 0);
    cia.write(reg::CRB, CRB_START);

    assert!(advance(&mut cia, 3));
    assert_eq!(cia.timer_b, 2, "reloaded from the latch");
}

#[test]
fn timer_b_cascades_from_timer_a_underflow() {
    let mut cia = Cia::new(CiaId::A);
    cia.icr_mask = 1 << icr::TB;
    start_timer_a(&mut cia, 1, false);
    cia.write(reg::TBLO, 2);
    cia.write(reg::TBHI, 0);
    cia.write(reg::CRB, CRB_START | (2 << CRB_INMODE_SHIFT));

    assert_eq!(cia.timer_b, 2, "reloaded from the latch by the TBHI write");
    advance(&mut cia, 2);
    assert_eq!(cia.timer_b, 1);
    advance(&mut cia, 2);
    assert_eq!(cia.timer_b, 0);
    assert!(!cia.irq_pending());
    advance(&mut cia, 2);
    assert!(cia.irq_pending());
    assert_eq!(cia.timer_b, 2, "B reloaded from its own latch");
}

#[test]
fn timer_b_cnt_mode_never_counts() {
    let mut cia = Cia::new(CiaId::A);
    cia.write(reg::TBLO, 1);
    cia.write(reg::TBHI, 0);
    cia.write(reg::CRB, CRB_START | (1 << CRB_INMODE_SHIFT));
    advance(&mut cia, 100);
    assert_eq!(cia.timer_b, 1);
}

#[test]
fn tod_counts_and_fires_alarm_on_match() {
    let mut cia = Cia::new(CiaId::A);
    cia.icr_mask = 1 << icr::ALRM;
    cia.tod_alarm = 3;

    for _ in 0..2 {
        cia.tod_tick();
        assert!(!cia.irq_pending());
    }
    cia.tod_tick();
    assert!(
        cia.irq_pending(),
        "ALRM fires on the transition into equality"
    );

    let _ = cia.read(reg::ICR);
    cia.tod_tick();
    assert!(
        !cia.irq_pending(),
        "moving past the match must not keep firing"
    );
}

#[test]
fn tod_alarm_does_not_refire_while_stationary() {
    let mut cia = Cia::new(CiaId::A);
    cia.icr_mask = 1 << icr::ALRM;
    cia.write(reg::CRB, CRB_ALARM);
    cia.write(reg::TODLO, 1);
    cia.write(reg::CRB, 0);

    cia.tod_tick();
    assert!(cia.irq_pending());
    let _ = cia.read(reg::ICR);

    cia.write(reg::CRB, CRB_ALARM);
    cia.write(reg::TODLO, 1);
    assert!(!cia.irq_pending());
}

#[test]
fn todhi_read_latches_and_todlo_read_releases() {
    let mut cia = Cia::new(CiaId::A);
    cia.tod = 0x010203;

    assert_eq!(cia.read(reg::TODHI), 0x01);
    cia.tod = 0x040506;
    assert_eq!(cia.read(reg::TODMID), 0x02, "frozen snapshot, not live");
    assert_eq!(cia.read(reg::TODLO), 0x03, "still the frozen snapshot");

    assert_eq!(cia.read(reg::TODHI), 0x04);
    assert_eq!(cia.read(reg::TODMID), 0x05);
    assert_eq!(cia.read(reg::TODLO), 0x06);
}

#[test]
fn writing_todhi_stops_clock_until_todlo_written() {
    let mut cia = Cia::new(CiaId::A);
    cia.write(reg::TODHI, 0x01);
    cia.tod_tick();
    cia.tod_tick();
    assert_eq!(cia.tod, 0x010000, "stopped after the TODHI write");

    cia.write(reg::TODMID, 0x02);
    cia.write(reg::TODLO, 0x03);
    assert_eq!(cia.tod, 0x010203);
    cia.tod_tick();
    assert_eq!(cia.tod, 0x010204, "TODLO write restarts the clock");
}

#[test]
fn crb_bit7_targets_the_alarm_register_instead_of_the_counter() {
    let mut cia = Cia::new(CiaId::A);
    cia.write(reg::CRB, CRB_ALARM);
    cia.write(reg::TODHI, 0x01);
    cia.write(reg::TODMID, 0x02);
    cia.write(reg::TODLO, 0x03);

    assert_eq!(cia.tod_alarm, 0x010203);
    assert_eq!(cia.tod, 0, "counter untouched while targeting the alarm");
}

#[test]
fn keyboard_byte_encoding_matches_hardware_wire_format() {
    let cases: &[(u8, u8)] = &[
        (0x00, 0xFF),
        (0x01, 0xFD),
        (0x45, 0x75),
        (0xFF, 0x00),
        (0x80, 0xFE),
    ];
    for &(raw, expected) in cases {
        assert_eq!(encode_keyboard_byte(raw), expected, "raw {raw:#04x}");
    }
}

#[test]
fn keyboard_handshake_feeds_queued_code_after_a_delay() {
    let mut cia = Cia::new(CiaId::A);
    cia.icr_mask = 1 << icr::SP;
    cia.queue_keycode(0x01);

    advance(&mut cia, KEYBOARD_HANDSHAKE_TICKS as u32 - 1);
    assert!(!cia.irq_pending(), "byte must not appear instantly");

    assert!(advance(&mut cia, 1));
    assert_eq!(cia.sdr, encode_keyboard_byte(0x01));
}

#[test]
fn keyboard_handshake_waits_for_sdr_read_before_next_byte() {
    let mut cia = Cia::new(CiaId::A);
    cia.icr_mask = 1 << icr::SP;
    cia.queue_keycode(0x01);
    cia.queue_keycode(0x02);

    advance(&mut cia, KEYBOARD_HANDSHAKE_TICKS as u32);
    assert_eq!(cia.sdr, encode_keyboard_byte(0x01));
    let _ = cia.read(reg::ICR);

    advance(&mut cia, KEYBOARD_HANDSHAKE_TICKS as u32 * 4);
    assert_eq!(cia.sdr, encode_keyboard_byte(0x01));

    let _ = cia.read(reg::SDR);
    advance(&mut cia, KEYBOARD_HANDSHAKE_TICKS as u32);
    assert_eq!(cia.sdr, encode_keyboard_byte(0x02));
}

#[test]
fn keyboard_handshake_pauses_while_spmode_is_output() {
    let mut cia = Cia::new(CiaId::A);
    cia.queue_keycode(0x01);
    cia.write(reg::CRA, CRA_SPMODE);

    advance(&mut cia, KEYBOARD_HANDSHAKE_TICKS as u32 * 4);
    assert_eq!(cia.sdr, 0, "no byte loads while SPMODE is output");

    cia.write(reg::CRA, 0);
    advance(&mut cia, KEYBOARD_HANDSHAKE_TICKS as u32);
    assert_eq!(cia.sdr, encode_keyboard_byte(0x01));
}

#[test]
fn icr_mask_gates_each_source_independently() {
    let cases: &[(u8, u8)] = &[
        (icr::TA, 1 << icr::TA),
        (icr::TB, 1 << icr::TB),
        (icr::ALRM, 1 << icr::ALRM),
        (icr::SP, 1 << icr::SP),
        (icr::FLG, 1 << icr::FLG),
    ];
    for &(bit, mask_bit) in cases {
        let mut cia = Cia::new(CiaId::A);
        cia.raise(bit);
        assert!(
            !cia.irq_pending(),
            "bit {bit} must not request without a mask"
        );
        cia.icr_mask = mask_bit;
        assert!(cia.irq_pending(), "bit {bit} must request once masked in");
    }
}

#[test]
fn icr_write_set_clear_convention() {
    let mut cia = Cia::new(CiaId::A);
    cia.write(reg::ICR, 0x80 | (1 << icr::TA) | (1 << icr::TB));
    assert_eq!(cia.icr_mask, (1 << icr::TA) | (1 << icr::TB));
    cia.write(reg::ICR, 1 << icr::TA);
    assert_eq!(cia.icr_mask, 1 << icr::TB);
}

#[test]
fn pra_read_returns_latch_for_output_bits_and_pin_for_input_bits() {
    let mut cia = Cia::new(CiaId::A);
    cia.write(reg::DDRA, 0x0F);
    cia.write(reg::PRA, 0xAA);
    cia.pra_input = 0x55;

    assert_eq!(cia.read(reg::PRA), 0x5A);
}

#[test]
fn prb_read_applies_the_same_direction_rule_as_pra() {
    let mut cia = Cia::new(CiaId::B);
    cia.write(reg::DDRB, 0xF0);
    cia.write(reg::PRB, 0xFF);
    cia.prb_input = 0x00;

    assert_eq!(cia.read(reg::PRB), 0xF0, "high nibble output, low input");
}

#[test]
fn writing_pra_always_latches_regardless_of_ddr() {
    let mut cia = Cia::new(CiaId::A);
    cia.write(reg::DDRA, 0x00);
    cia.write(reg::PRA, 0x3C);
    cia.write(reg::DDRA, 0xFF);
    assert_eq!(cia.read(reg::PRA), 0x3C);
}

#[test]
fn no_drive_reads_idle_regardless_of_selection() {
    let mut drive = FloppyDrive::new(FloppyPresence::Absent);
    assert_eq!(drive.pra_status_bits(), FLOPPY_PRA_MASK);

    drive.on_prb_write(0xFF, !CIAB_DSKSEL0 & !CIAB_DSKMOTOR);
    assert_eq!(
        drive.pra_status_bits(),
        FLOPPY_PRA_MASK,
        "no drive never drives the status lines low"
    );
}

#[test]
fn unselected_empty_drive_also_reads_idle() {
    let mut drive = FloppyDrive::new(FloppyPresence::Empty);
    drive.on_prb_write(0xFF, !CIAB_DSKMOTOR);
    assert_eq!(drive.pra_status_bits(), FLOPPY_PRA_MASK);
}

#[test]
fn empty_drive_always_asserts_dskchng_and_deasserts_dskprot_when_selected() {
    let mut drive = FloppyDrive::new(FloppyPresence::Empty);
    drive.on_prb_write(0xFF, !CIAB_DSKSEL0);
    let bits = drive.pra_status_bits();
    assert_eq!(bits & CIAA_DSKCHANGE, 0, "DSKCHNG asserted: no disk, ever");
    assert_eq!(
        bits & CIAA_DSKPROT,
        CIAA_DSKPROT,
        "DSKPROT deasserted: nothing to protect"
    );
}

fn select_and_step(drive: &mut FloppyDrive, inward: bool, times: u32) {
    let mut step_high = !CIAB_DSKSEL0;
    if inward {
        step_high &= !CIAB_DSKDIREC;
    }
    let step_low = step_high & !CIAB_DSKSTEP;
    for _ in 0..times {
        drive.on_prb_write(step_high, step_low);
        drive.on_prb_write(step_low, step_high);
    }
}

#[test]
fn stepping_inward_then_outward_reaches_and_leaves_track0() {
    let mut drive = FloppyDrive::new(FloppyPresence::Empty);
    drive.on_prb_write(0xFF, !CIAB_DSKSEL0);
    assert_eq!(
        drive.pra_status_bits() & CIAA_DSKTRACK0,
        0,
        "starts at cylinder 0"
    );

    select_and_step(&mut drive, true, 5);
    assert_ne!(
        drive.pra_status_bits() & CIAA_DSKTRACK0,
        0,
        "off track 0 after stepping inward"
    );

    select_and_step(&mut drive, false, 10);
    assert_eq!(
        drive.pra_status_bits() & CIAA_DSKTRACK0,
        0,
        "back at track 0 after stepping outward past it"
    );
}

#[test]
fn step_pulses_while_deselected_do_not_move_the_head() {
    let mut drive = FloppyDrive::new(FloppyPresence::Empty);
    drive.on_prb_write(0xFF, !CIAB_DSKSTEP);
    drive.on_prb_write(!CIAB_DSKSTEP, 0xFF);
    drive.on_prb_write(0xFF, !CIAB_DSKSEL0);
    assert_eq!(
        drive.pra_status_bits() & CIAA_DSKTRACK0,
        0,
        "still at cylinder 0: the earlier pulses never reached a selected drive"
    );
}

#[test]
fn shift_id_bit_reads_msb_first() {
    let id = 0x8100_0001u32;
    assert!(shift_id_bit(id, 0), "bit 31 (MSB) first");
    assert!(shift_id_bit(id, 7), "bit 24 next");
    assert!(!shift_id_bit(id, 1));
    assert!(shift_id_bit(id, 31), "bit 0 (LSB) last");
    assert!(!shift_id_bit(id, 32), "past the register: reads 0");
    assert!(!shift_id_bit(id, 255), "stays 0, does not wrap or panic");
}

fn deselect_then_reselect(drive: &mut FloppyDrive) {
    let selected = !CIAB_DSKSEL0;
    let deselected = 0xFFu8;
    drive.on_prb_write(selected, deselected);
    drive.on_prb_write(deselected, selected);
}

#[test]
fn empty_drive_shifts_its_32_bit_id_out_through_dskrdy() {
    let mut drive = FloppyDrive::new(FloppyPresence::Empty);
    drive.on_prb_write(0xFF, !CIAB_DSKSEL0 & !CIAB_DSKMOTOR);
    assert!(drive.motor_on);

    drive.on_prb_write(!CIAB_DSKSEL0 & !CIAB_DSKMOTOR, 0xFF);
    drive.on_prb_write(0xFF, !CIAB_DSKSEL0);
    assert!(!drive.motor_on, "motor latched off on the reselect edge");

    assert_eq!(drive.pra_status_bits() & CIAA_DSKRDY, 0);

    for _ in 0..32 {
        deselect_then_reselect(&mut drive);
        let bits = drive.pra_status_bits();
        assert_eq!(bits & CIAA_DSKRDY, 0, "still within $FFFFFFFF's 32 bits");
    }

    deselect_then_reselect(&mut drive);
    assert_ne!(
        drive.pra_status_bits() & CIAA_DSKRDY,
        0,
        "exhausted shift register must not keep reporting ready"
    );
    deselect_then_reselect(&mut drive);
    assert_ne!(
        drive.pra_status_bits() & CIAA_DSKRDY,
        0,
        "stays exhausted, does not wrap"
    );
}

#[test]
fn no_drive_id_is_all_zero() {
    assert_eq!(FloppyPresence::Absent.drive_id(), 0);
    assert_eq!(FloppyPresence::Empty.drive_id(), 0xFFFF_FFFF);
}
