use machine_core::board::boot::{
    BOOT_EXCEPTION_STORM_THRESHOLD, BOOT_MAX_FRAMES, BOOT_MAX_INSTRUCTIONS,
    BOOT_TIGHT_LOOP_THRESHOLD, BatchExit, BootMonitor, BootOutcome, ExceptionKind, Limit, Next,
    Observation, RomIdentity, idle_slice, report_rom_identify, reset_line,
};

fn seen(ppc: u32, frames: u64, overlay: bool) -> Observation {
    Observation {
        ppc,
        pc: ppc + 2,
        frames,
        overlay,
        intena: 0x4028,
        intreq: 0x0020,
    }
}

#[test]
fn a_quiet_instruction_prints_nothing_and_goes_on() {
    let mut watch = BootMonitor::new(0x00F8_0002);
    let step = watch.instruction_retired(seen(0x00F8_0002, 0, true));
    assert!(step.lines.is_empty());
    assert_eq!(step.ends, None);
    assert_eq!(watch.total_instructions, 1);
    assert_eq!(watch.same_pc_streak, 1);
}

#[test]
fn clearing_the_overlay_is_reported_exactly_once() {
    let mut watch = BootMonitor::new(0);
    let first = watch.instruction_retired(seen(0x00F8_00D2, 3, false));
    assert_eq!(
        first.lines,
        vec!["PHASE1 BOARD-QEMU-Q35: overlay cleared (frame 3, instr 1, PC 0x00f800d4)"]
    );
    let second = watch.instruction_retired(seen(0x00F8_00D6, 3, true));
    assert!(second.lines.is_empty());
    let third = watch.instruction_retired(seen(0x00F8_00D8, 3, false));
    assert!(third.lines.is_empty());
}

#[test]
fn progress_is_reported_every_ten_frames() {
    let mut watch = BootMonitor::new(0);
    assert!(watch.progress(seen(0x1000, 9, true), false).is_none());
    assert_eq!(
        watch.progress(seen(0x1000, 10, true), false).as_deref(),
        Some("progress: frame 10, PC 0x00001002, overlay mapped, INTENA 0x4028, INTREQ 0x0020")
    );
    assert!(watch.progress(seen(0x1000, 19, false), false).is_none());
    assert_eq!(
        watch.progress(seen(0x1000, 20, false), true).as_deref(),
        Some("progress: frame 20, PC 0x00001002 (stopped), overlay clear, INTENA 0x4028, INTREQ 0x0020")
    );
}

#[test]
fn a_tight_loop_is_called_at_the_threshold_and_not_before() {
    let mut watch = BootMonitor::new(0x1000);
    watch.last_pc = 0x2000;
    watch.same_pc_streak = BOOT_TIGHT_LOOP_THRESHOLD - 2;
    let almost = watch.instruction_retired(seen(0x2000, 0, true));
    assert_eq!(almost.ends, None);
    let there = watch.instruction_retired(seen(0x2000, 0, true));
    assert_eq!(there.ends, Some(BootOutcome::Wedged));
    assert_eq!(
        there.lines,
        vec!["wedge: tight loop at PC 0x00002000 (5000000 instructions with no progress)"]
    );
}

#[test]
fn moving_on_resets_the_tight_loop_count() {
    let mut watch = BootMonitor::new(0x1000);
    watch.same_pc_streak = BOOT_TIGHT_LOOP_THRESHOLD - 1;
    let step = watch.instruction_retired(seen(0x3000, 0, true));
    assert_eq!(step.ends, None);
    assert_eq!(watch.same_pc_streak, 1);
    assert_eq!(watch.last_pc, 0x3000);
}

#[test]
fn both_limits_end_a_run() {
    let mut by_count = BootMonitor::new(0);
    by_count.total_instructions = BOOT_MAX_INSTRUCTIONS - 1;
    assert_eq!(
        by_count.instruction_retired(seen(0x10, 0, true)).ends,
        Some(BootOutcome::LimitReached(Limit::MaxInstructions))
    );
    let mut by_frames = BootMonitor::new(0);
    assert_eq!(
        by_frames.instruction_retired(seen(0x10, BOOT_MAX_FRAMES, true)).ends,
        Some(BootOutcome::LimitReached(Limit::MaxFrames))
    );
}

#[test]
fn a_storm_is_called_at_the_threshold_and_not_before() {
    let mut watch = BootMonitor::new(0);
    for _ in 1..BOOT_EXCEPTION_STORM_THRESHOLD {
        assert!(watch.track_exception(ExceptionKind::Fline, 0x4000).is_none());
    }
    assert_eq!(
        watch.track_exception(ExceptionKind::Fline, 0x4000).as_deref(),
        Some("wedge: exception storm: F-line at PC 0x00004000 repeated 1000 times")
    );
}

#[test]
fn another_kind_or_another_address_starts_a_new_streak() {
    let mut watch = BootMonitor::new(0);
    watch.track_exception(ExceptionKind::Aline, 0x4000);
    watch.track_exception(ExceptionKind::Aline, 0x4000);
    assert_eq!(watch.exception_streak, 2);
    watch.track_exception(ExceptionKind::Trap, 0x4000);
    assert_eq!(watch.exception_streak, 1);
    watch.track_exception(ExceptionKind::Trap, 0x4002);
    assert_eq!(watch.exception_streak, 1);
}

#[test]
fn what_follows_a_batch() {
    let mut watch = BootMonitor::new(0);
    assert_eq!(
        watch.after_batch(Some(BootOutcome::Wedged), BatchExit::Stopped, 0x0700, 0, 0).0,
        Next::End(BootOutcome::Wedged)
    );
    assert_eq!(
        watch.after_batch(None, BatchExit::BudgetExhausted, 0, 0, 0).0,
        Next::RunAgain
    );
    assert_eq!(
        watch.after_batch(None, BatchExit::BoundaryRequested, 0, 0, 0).0,
        Next::RunAgain
    );
    assert_eq!(
        watch.after_batch(None, BatchExit::Stopped, 0x0700, 0, 0).0,
        Next::End(BootOutcome::CleanHalt)
    );
    assert_eq!(watch.after_batch(None, BatchExit::Stopped, 0x0300, 0, 0).0, Next::Idle);
    assert_eq!(
        watch.after_batch(None, BatchExit::Stopped, 0x0300, 0, BOOT_MAX_FRAMES).0,
        Next::End(BootOutcome::LimitReached(Limit::MaxFrames))
    );
    assert_eq!(
        watch.after_batch(None, BatchExit::Exception(ExceptionKind::Bkpt), 0, 0x10, 0).0,
        Next::Deliver(ExceptionKind::Bkpt)
    );
    watch.exception_streak = BOOT_EXCEPTION_STORM_THRESHOLD - 1;
    let (next, line) =
        watch.after_batch(None, BatchExit::Exception(ExceptionKind::Bkpt), 0, 0x10, 0);
    assert_eq!(next, Next::End(BootOutcome::Wedged));
    assert_eq!(
        line.as_deref(),
        Some("wedge: exception storm: BKPT at PC 0x00000010 repeated 1000 times")
    );
}

#[test]
fn the_cpu_figure_counts_where_the_hook_saw_fewer() {
    let mut watch = BootMonitor::new(0);
    watch.total_instructions = 105;
    watch.batch_finished(100, 4);
    assert_eq!(watch.total_instructions, 105);
    watch.batch_finished(100, 9);
    assert_eq!(watch.total_instructions, 109);
}

#[test]
fn idle_slices_cover_the_budget() {
    let mut left: u32 = 1000;
    let mut ticked: u32 = 0;
    let mut slices: u32 = 0;
    while left > 0 {
        let (slice, rest) = idle_slice(left, 454);
        assert!(slice <= 454);
        ticked += slice;
        left = rest;
        slices += 1;
    }
    assert_eq!(ticked, 1000);
    assert_eq!(slices, 3);
}

#[test]
fn a_run_ends_with_its_marker_line() {
    let mut watch = BootMonitor::new(0);
    watch.total_instructions = 1234567;
    assert_eq!(
        watch.summary(BootOutcome::CleanHalt, 42, false, 0x00F8_1234),
        "PHASE1 BOARD-QEMU-Q35: CPU HALTED CLEANLY -- 1234567 instructions, 42 frames, overlay cleared, final PC 0x00f81234"
    );
    assert_eq!(
        watch.summary(BootOutcome::LimitReached(Limit::MaxFrames), 200, true, 0),
        "PHASE1 BOARD-QEMU-Q35: LIMIT REACHED (max-frames) -- 1234567 instructions, 200 frames, overlay still mapped, final PC 0x00000000"
    );
    assert_eq!(
        watch.summary(BootOutcome::Wedged, 0, true, 0xFFFF_FFFF),
        "PHASE1 BOARD-QEMU-Q35: WEDGED -- 1234567 instructions, 0 frames, overlay still mapped, final PC 0xffffffff"
    );
}

#[test]
fn names_of_limits_and_exceptions() {
    assert_eq!(Limit::MaxInstructions.name(), "max-instructions");
    assert_eq!(Limit::MaxFrames.name(), "max-frames");
    assert_eq!(ExceptionKind::Aline.name(), "A-line");
    assert_eq!(ExceptionKind::Illegal.name(), "illegal");
}

#[test]
fn rom_and_reset_lines() {
    assert_eq!(
        reset_line(0x1111_4EF9, 0x00F8_00D2, true),
        "reset vector: SSP 0x11114ef9 PC 0x00f800d2 (overlay mapped)"
    );
    assert_eq!(
        report_rom_identify("main", None, 524288),
        "main ROM: unidentified (524288 bytes) -- booting anyway"
    );
    let identity = RomIdentity {
        kind: String::from("AROS"),
        rev: (51, 51),
        exec_rev: (41, 11),
        size: 524288,
        checksum_ok: false,
        boot_pc: 0x00F8_0010,
    };
    assert_eq!(
        report_rom_identify("ext", Some(identity), 524288),
        "ext ROM: AROS rev 51.51, exec 41.11, 524288 bytes, checksum FAILED, boot_pc 0x00f80010"
    );
}
